//! The process manager: registry, FIFO ready queue, wait-for-exit table and
//! the scheduling, fork, kill and blocking operations.
use vstd::prelude::*;
use std::collections::VecDeque;
use crate::context::ProcessContext;
use crate::memory::{
    FramePool, Heap, Stack, brk_spec, heap_pages, page_of, saturating_frames, slot_base, stack_slot_base, HEAP_START, MAX_PID, STACK_INIT_BOT, STACK_INIT_TOP,
    STACK_MAX_SIZE, PAGE_SIZE,
};
use crate::process::{ProcessId, ProgramStatus, KERNEL_PID, ascii_lower, lowercase_name};
use crate::sem::{SemState, SemaphoreResult, SemaphoreSet, signal_result, signal_state, wait_result, wait_state};
use crate::vm::{AddressSpace, ProcessData, ProcessVm, code_pages, image_pages, proc_stack_spec, proc_stack_top};

verus! {

/// One entry of the registry.
pub struct Process {
    pub pid: ProcessId,
    pub name: String,
    /// Looked up by identifier only; never keeps the parent alive.
    pub parent: Option<ProcessId>,
    pub children: Vec<ProcessId>,
    pub ticks_passed: u64,
    pub status: ProgramStatus,
    pub context: ProcessContext,
    /// Set exactly when the process is dead.
    pub exit_code: Option<isize>,
    /// Dropped exactly when the process is killed.
    pub vm: Option<ProcessVm>,
    pub data: Option<ProcessData>,
}

impl Process {
    pub open spec fn wf(&self, index: int, n_spaces: int, n_sems: int) -> bool {
        &&& self.pid.0 == index + 1
        &&& (self.status == ProgramStatus::Dead) == self.exit_code.is_some()
        &&& (self.status == ProgramStatus::Dead) == self.vm.is_none()
        &&& self.vm.is_some() == self.data.is_some()
        &&& self.vm.is_some() ==> self.vm.unwrap().space < n_spaces && self.vm.unwrap().stack.wf()
        &&& self.data.is_some() ==> self.data.unwrap().sems < n_sems
    }
}

/// Whether `pid` names a registered process that is Ready.
pub open spec fn ready_entry(procs: Seq<Process>, pid: ProcessId) -> bool {
    1 <= pid.0 <= procs.len() && procs[pid.0 - 1].status == ProgramStatus::Ready
}

/// The position of the first entry of `q` that is Ready, or `q.len()`.
pub open spec fn first_ready(procs: Seq<Process>, q: Seq<ProcessId>) -> nat
    decreases q.len(),
{
    if q.len() == 0 {
        0
    } else if ready_entry(procs, q[0]) {
        0
    } else {
        1 + first_ready(procs, q.drop_first())
    }
}

/// A process after `wake_up(_, ret)`: Ready, with `ret`, when given, in its
/// return-value register.
pub open spec fn wake_spec(p: Process, ret: Option<isize>) -> Process {
    Process {
        status: ProgramStatus::Ready,
        context: match ret {
            Some(c) => ProcessContext { rax: c as u64, ..p.context },
            None => p.context,
        },
        ..p
    }
}

/// Whether process `pid` in `procs` is registered and not dead.
pub open spec fn alive(procs: Seq<Process>, pid: ProcessId) -> bool {
    1 <= pid.0 <= procs.len() && procs[pid.0 - 1].status != ProgramStatus::Dead
}

/// The entries of `ws` that name live processes of `procs`, in order.
pub open spec fn live_waiters(procs: Seq<Process>, ws: Seq<ProcessId>) -> Seq<ProcessId>
    decreases ws.len(),
{
    if ws.len() == 0 {
        Seq::empty()
    } else if alive(procs, ws.last()) {
        live_waiters(procs, ws.drop_last()).push(ws.last())
    } else {
        live_waiters(procs, ws.drop_last())
    }
}

/// An address space after one of its sharers is torn down: the last one
/// out unmaps the heap and the code and frees the table.
pub open spec fn release_space(sp: AddressSpace) -> AddressSpace {
    if sp.sharers <= 1 {
        AddressSpace { sharers: 0, heap: Heap { end: HEAP_START, ..sp.heap }, ..sp }
    } else {
        AddressSpace { sharers: (sp.sharers - 1) as u64, ..sp }
    }
}

/// The free frame count after a process with memory `vm` in address space
/// `sp` is torn down: its stack comes back, and when it was the last sharer
/// so do the heap pages, the code pages and the page table's own frame.
pub open spec fn teardown_frames(free: u64, vm: ProcessVm, sp: AddressSpace) -> int {
    let f1 = saturating_frames(free, vm.stack.usage);
    if sp.sharers <= 1 {
        let f2 = saturating_frames(f1 as u64, heap_pages(sp.heap.end) as u64);
        let f3 = saturating_frames(f2 as u64, sp.code_pages);
        saturating_frames(f3 as u64, 1)
    } else {
        f1
    }
}

/// Whether process `pid` can be killed: registered, alive, and not the kernel.
pub open spec fn killable(procs: Seq<Process>, pid: ProcessId) -> bool {
    alive(procs, pid) && pid.0 != KERNEL_PID
}

/// What `kill(pid, ret)` leaves of process `j + 1` other than `pid` itself:
/// a live process that waited for `pid` is woken with `ret`.
pub open spec fn after_kill(procs: Seq<Process>, ws: Seq<ProcessId>, j: int, ret: isize) -> Process {
    if ws.contains(ProcessId((j + 1) as u16)) && alive(procs, ProcessId((j + 1) as u16)) {
        wake_spec(procs[j], Some(ret))
    } else {
        procs[j]
    }
}

/// What a scheduling step from `m0` leaves: `r` is the first Ready entry of
/// the ready queue, which is popped up to and including it, or the kernel
/// process when there is none and the queue is drained; `r` is Running and
/// current, and `ctx` holds its saved registers.
pub open spec fn switch_post(m0: ProcessManager, r: ProcessId, m1: ProcessManager, ctx: ProcessContext) -> bool {
    let q = m0.ready_queue@;
    let i = first_ready(m0.procs@, q);
    &&& i < q.len() ==> r == q[i as int] && m1.ready_queue@ == q.subrange(i as int + 1, q.len() as int)
    &&& i == q.len() ==> r.0 == KERNEL_PID && m1.ready_queue@.len() == 0
    &&& m0.has(r)
    &&& m1.current == r
    &&& ctx == m0.proc_spec(r).context
    &&& m1.procs@.len() == m0.procs@.len()
    &&& m1.procs@[r.0 - 1] == (Process { status: ProgramStatus::Running, ..m0.proc_spec(r) })
    &&& forall|j: int| 0 <= j < m0.procs@.len() && j != r.0 - 1 ==> m1.procs@[j] == m0.procs@[j]
    &&& m1.wait_table@ == m0.wait_table@
    &&& m1.spaces@ == m0.spaces@
    &&& m1.sem_tables@ == m0.sem_tables@
    &&& m1.frames == m0.frames
}

/// What `kill(pid, ret)` from `m0` leaves. Unknown, dead and kernel
/// processes are left alone. Otherwise `pid` is Dead with exit code `ret`
/// and without memory or data; every live process that waited for it is
/// woken with `ret` and queued in the order it began to wait; its wait list
/// is emptied and its address space loses a sharer.
pub open spec fn kill_post(m0: ProcessManager, pid: ProcessId, ret: isize, m1: ProcessManager) -> bool {
    &&& !killable(m0.procs@, pid) ==> m1 == m0
    &&& killable(m0.procs@, pid) ==> {
        let ws = m0.wait_table@[pid.0 - 1]@;
        let sp = m0.proc_spec(pid).vm.unwrap().space;
        &&& m1.procs@.len() == m0.procs@.len()
        &&& m1.proc_spec(pid).status == ProgramStatus::Dead
        &&& m1.proc_spec(pid).exit_code == Some(ret)
        &&& m1.proc_spec(pid).vm.is_none()
        &&& m1.proc_spec(pid).data.is_none()
        &&& forall|j: int| 0 <= j < m0.procs@.len() && j != pid.0 - 1
            ==> #[trigger] m1.procs@[j] == after_kill(m0.procs@, ws, j, ret)
        &&& m1.ready_queue@ == m0.ready_queue@ + live_waiters(m0.procs@, ws)
        &&& m1.wait_table@.len() == m0.wait_table@.len()
        &&& m1.wait_table@[pid.0 - 1]@.len() == 0
        &&& forall|j: int| 0 <= j < m0.wait_table@.len() && j != pid.0 - 1
            ==> m1.wait_table@[j] == m0.wait_table@[j]
        &&& m1.spaces@ == m0.spaces@.update(sp as int, release_space(m0.spaces@[sp as int]))
        &&& m1.frames.free == teardown_frames(m0.frames.free, m0.proc_spec(pid).vm.unwrap(), m0.spaces@[sp as int])
        &&& m1.current == m0.current
        &&& m1.sem_tables@ == m0.sem_tables@
    }
}

/// The return value that reports a request that cannot be served: waiting
/// on an unknown process or on oneself, or a failed fork.
pub const SYSCALL_FAILED: u64 = 0xffff_ffff_ffff_ffff;

/// Whether a wait for `pid` from `m` must block: `pid` is alive, has no exit
/// code yet, and is not the caller, which is alive.
pub open spec fn wait_blocks(m: ProcessManager, pid: ProcessId) -> bool {
    m.exit_code_spec(pid).is_none() && alive(m.procs@, pid) && pid != m.current && alive(m.procs@, m.current)
}

/// What `wait_pid(pid)` from `m0` with live registers `ctx0` leaves. With an
/// exit code at hand it is written to the return-value register and nothing
/// else changes. A wait that can never end reports `SYSCALL_FAILED` the same
/// way. Otherwise the caller joins the wait list of `pid`, its registers are
/// saved, it is Blocked unless the scheduler had to fall back to it, and the
/// next process is switched to.
pub open spec fn wait_pid_post(
    m0: ProcessManager,
    ctx0: ProcessContext,
    pid: ProcessId,
    m1: ProcessManager,
    ctx1: ProcessContext,
) -> bool {
    match m0.exit_code_spec(pid) {
        Some(c) => m1 == m0 && ctx1 == (ProcessContext { rax: c as u64, ..ctx0 }),
        None => if !wait_blocks(m0, pid) {
            m1 == m0 && ctx1 == (ProcessContext { rax: SYSCALL_FAILED, ..ctx0 })
        } else {
            let c = m0.current;
            &&& m1.procs@.len() == m0.procs@.len()
            &&& m1.wait_table@.len() == m0.wait_table@.len()
            &&& m1.wait_table@[pid.0 - 1]@ == m0.wait_table@[pid.0 - 1]@.push(c)
            &&& forall|j: int| 0 <= j < m0.wait_table@.len() && j != pid.0 - 1
                ==> m1.wait_table@[j] == m0.wait_table@[j]
            &&& block_and_switch(m0, ctx0, m1, ctx1)
            &&& m1.current != c ==> m1.status_of(c) == ProgramStatus::Blocked
            &&& forall|j: int| 0 <= j < m0.procs@.len()
                ==> ((#[trigger] m1.procs@[j]).status == ProgramStatus::Dead) == (m0.procs@[j].status == ProgramStatus::Dead)
        },
    }
}

/// One row of the process listing.
#[derive(Clone, Copy, Debug, PartialEq, Eq, Structural)]
pub struct ProcessInfo {
    pub pid: u16,
    /// 0 when the process has no parent.
    pub parent: u16,
    pub ticks_passed: u64,
    pub status: ProgramStatus,
    /// Bytes of stack mapped.
    pub memory: u64,
}

/// The listing row of a live process.
pub open spec fn info_of(p: Process) -> ProcessInfo {
    ProcessInfo {
        pid: p.pid.0,
        parent: match p.parent { Some(q) => q.0, None => 0 },
        ticks_passed: p.ticks_passed,
        status: p.status,
        memory: (p.vm.unwrap().stack.usage * PAGE_SIZE) as u64,
    }
}

/// The rows of the live processes among `procs`, in order.
pub open spec fn live_rows(procs: Seq<Process>) -> Seq<ProcessInfo>
    decreases procs.len(),
{
    if procs.len() == 0 {
        Seq::empty()
    } else if procs.last().status != ProgramStatus::Dead {
        live_rows(procs.drop_last()).push(info_of(procs.last()))
    } else {
        live_rows(procs.drop_last())
    }
}

/// Whether the current process of `m` can fork: it is alive, an
/// identifier is free, the frames for its stack copy are free, and its
/// address space can take one more sharer.
pub open spec fn can_fork(m: ProcessManager) -> bool {
    let par = m.proc_spec(m.current);
    &&& par.status != ProgramStatus::Dead
    &&& m.procs@.len() < MAX_PID
    &&& par.vm.unwrap().stack.usage <= m.frames.free
    &&& m.spaces@[par.vm.unwrap().space as int].sharers < u64::MAX
}

/// What `fork` from `m0` leaves, returning `r`. On failure nothing changes.
/// On success the child `c` takes the next identifier; it is Ready, unqueued,
/// with no ticks, no children and the parent's name; its registers are the
/// parent's saved ones with 0 as return value and the stack pointer moved to
/// the same offset in its own slot, where a copy of the parent's stack lies;
/// it shares the parent's address space and semaphore table. The parent's
/// saved return value becomes `c`, which joins its children.
pub open spec fn fork_post(m0: ProcessManager, r: Option<ProcessId>, m1: ProcessManager) -> bool {
    &&& r.is_none() ==> m1 == m0
    &&& r.is_some() ==> {
        let n = m0.procs@.len();
        let cur = m0.current;
        let par = m0.proc_spec(cur);
        let pvm = par.vm.unwrap();
        let child = m1.procs@[n as int];
        let c = r.unwrap();
        &&& c.0 == n + 1
        &&& m1.procs@.len() == n + 1
        &&& forall|j: int| 0 <= j < n && j != cur.0 - 1 ==> m1.procs@[j] == m0.procs@[j]
        &&& m1.proc_spec(cur) == (Process {
            context: ProcessContext { rax: c.0 as u64, ..par.context },
            children: m1.proc_spec(cur).children,
            ..par
        })
        &&& m1.proc_spec(cur).children@ == par.children@.push(c)
        &&& child.pid == c
        &&& child.name == par.name
        &&& child.parent == Some(cur)
        &&& child.children@.len() == 0
        &&& child.ticks_passed == 0
        &&& child.status == ProgramStatus::Ready
        &&& child.exit_code.is_none()
        &&& child.context == (ProcessContext {
            rax: 0,
            rsp: (slot_base(c.0) + par.context.rsp % STACK_MAX_SIZE) as u64,
            ..par.context
        })
        &&& child.vm == Some(ProcessVm {
            space: pvm.space,
            stack: Stack { bot: (slot_base(c.0) + pvm.stack.bot % STACK_MAX_SIZE) as u64, usage: pvm.stack.usage },
        })
        &&& child.data == par.data
        &&& m1.spaces@ == m0.spaces@.update(pvm.space as int,
            AddressSpace { sharers: (m0.spaces@[pvm.space as int].sharers + 1) as u64, ..m0.spaces@[pvm.space as int] })
        &&& m1.frames.free == m0.frames.free - pvm.stack.usage
        &&& m1.ready_queue@ == m0.ready_queue@
        &&& m1.wait_table@.len() == n + 1
        &&& m1.wait_table@.subrange(0, n as int) == m0.wait_table@
        &&& m1.sem_tables@ == m0.sem_tables@
        &&& m1.current == cur
    }
}

/// The state `mb` that blocking the live current process of `m0` leaves,
/// with `ctx0` its live registers: they are saved, its tick count grows,
/// and it is Blocked. Queue, memory and frames are as they were.
pub open spec fn block_step(m0: ProcessManager, ctx0: ProcessContext, mb: ProcessManager) -> bool {
    let c = m0.current;
    let p = m0.proc_spec(c);
    &&& mb.procs@ == m0.procs@.update(c.0 - 1, Process {
        ticks_passed: if p.ticks_passed < u64::MAX { (p.ticks_passed + 1) as u64 } else { p.ticks_passed },
        context: ctx0,
        status: ProgramStatus::Blocked,
        ..p
    })
    &&& mb.current == c
    &&& mb.ready_queue@ == m0.ready_queue@
    &&& mb.spaces@ == m0.spaces@
    &&& mb.frames == m0.frames
}

/// What a blocking call leaves in `m1`, `ctx1`, starting from `m0` with live
/// registers `ctx0`: the caller is blocked, then the scheduler switches to
/// the next process. Unless the caller is the kernel, which the scheduler
/// may fall back to, it no longer runs and stays Blocked; it is not queued.
pub open spec fn block_and_switch(m0: ProcessManager, ctx0: ProcessContext, m1: ProcessManager, ctx1: ProcessContext) -> bool {
    let c = m0.current;
    &&& exists|mb: ProcessManager| mb.wf() && block_step(m0, ctx0, mb) && #[trigger] switch_post(mb, m1.current, m1, ctx1)
    &&& m1.proc_spec(c).context == ctx0
    &&& c.0 != KERNEL_PID ==> m1.current != c && m1.status_of(c) == ProgramStatus::Blocked
    &&& !m0.ready_queue@.contains(c) ==> !m1.ready_queue@.contains(c)
    &&& m1.status_of(m1.current) == ProgramStatus::Running
    &&& ctx1 == m1.proc_spec(m1.current).context
}

/// `m1` is `m0` with semaphore table `s` now holding `tv`.
pub open spec fn sems_changed(m0: ProcessManager, m1: ProcessManager, s: int, tv: Map<u32, SemState>) -> bool {
    &&& m1.sem_tables@.len() == m0.sem_tables@.len()
    &&& m1.sem_tables@[s]@ == tv
    &&& forall|j: int| 0 <= j < m0.sem_tables@.len() && j != s ==> m1.sem_tables@[j] == m0.sem_tables@[j]
}

/// Everything but the semaphore tables is as it was.
pub open spec fn same_but_sems(m0: ProcessManager, m1: ProcessManager) -> bool {
    &&& m1.procs@ == m0.procs@
    &&& m1.ready_queue@ == m0.ready_queue@
    &&& m1.wait_table@ == m0.wait_table@
    &&& m1.spaces@ == m0.spaces@
    &&& m1.frames == m0.frames
    &&& m1.current == m0.current
}

/// What creating semaphore `key` with `value` units in the current
/// process's table leaves: `r` says whether the key was free.
pub open spec fn new_sem_post(m0: ProcessManager, key: u32, value: usize, r: bool, m1: ProcessManager) -> bool {
    let d = m0.proc_spec(m0.current).data;
    &&& d.is_none() ==> !r && m1 == m0
    &&& d.is_some() ==> {
        let s = d.unwrap().sems as int;
        let t = m0.sem_tables@[s]@;
        &&& r == !t.contains_key(key)
        &&& sems_changed(m0, m1, s, if r { t.insert(key, (value, Seq::empty())) } else { t })
        &&& same_but_sems(m0, m1)
    }
}

/// What removing semaphore `key` from the current process's table leaves:
/// `r` says whether it was there.
pub open spec fn remove_sem_post(m0: ProcessManager, key: u32, r: bool, m1: ProcessManager) -> bool {
    let d = m0.proc_spec(m0.current).data;
    &&& d.is_none() ==> !r && m1 == m0
    &&& d.is_some() ==> {
        let s = d.unwrap().sems as int;
        let t = m0.sem_tables@[s]@;
        &&& r == t.contains_key(key)
        &&& sems_changed(m0, m1, s, t.remove(key))
        &&& same_but_sems(m0, m1)
    }
}

/// What the semaphore wait call on `key` leaves. A dead caller or an unknown
/// key gets 1. Otherwise the table takes the wait; a caller that got a unit
/// gets 0, one that must wait is blocked and the next process switched to.
pub open spec fn sem_wait_post(
    m0: ProcessManager,
    ctx0: ProcessContext,
    key: u32,
    r: SemaphoreResult,
    m1: ProcessManager,
    ctx1: ProcessContext,
) -> bool {
    let c = m0.current;
    let d = m0.proc_spec(c).data;
    if d.is_none() {
        r == SemaphoreResult::NotExist && m1 == m0 && ctx1 == (ProcessContext { rax: 1, ..ctx0 })
    } else {
        let s = d.unwrap().sems as int;
        let t = m0.sem_tables@[s]@;
        if !t.contains_key(key) {
            &&& r == SemaphoreResult::NotExist
            &&& sems_changed(m0, m1, s, t)
            &&& same_but_sems(m0, m1)
            &&& ctx1 == (ProcessContext { rax: 1, ..ctx0 })
        } else {
            &&& r == wait_result(t[key], c)
            &&& sems_changed(m0, m1, s, t.insert(key, wait_state(t[key], c)))
            &&& r == SemaphoreResult::Success ==> same_but_sems(m0, m1) && ctx1 == (ProcessContext { rax: 0, ..ctx0 })
            &&& r is Block ==> block_and_switch(m0, ctx0, m1, ctx1) && m1.wait_table@ == m0.wait_table@
        }
    }
}

/// What the semaphore signal call on `key` leaves. A dead caller or an
/// unknown key gets 1. Otherwise the table takes the signal; when it names a
/// waiter to wake, that process is woken and queued and the caller's
/// registers are untouched, else the caller gets 0.
pub open spec fn sem_signal_post(
    m0: ProcessManager,
    ctx0: ProcessContext,
    key: u32,
    r: SemaphoreResult,
    m1: ProcessManager,
    ctx1: ProcessContext,
) -> bool {
    let d = m0.proc_spec(m0.current).data;
    if d.is_none() {
        r == SemaphoreResult::NotExist && m1 == m0 && ctx1 == (ProcessContext { rax: 1, ..ctx0 })
    } else {
        let s = d.unwrap().sems as int;
        let t = m0.sem_tables@[s]@;
        if !t.contains_key(key) {
            &&& r == SemaphoreResult::NotExist
            &&& sems_changed(m0, m1, s, t)
            &&& same_but_sems(m0, m1)
            &&& ctx1 == (ProcessContext { rax: 1, ..ctx0 })
        } else {
            &&& r == signal_result(t[key])
            &&& sems_changed(m0, m1, s, t.insert(key, signal_state(t[key])))
            &&& r == SemaphoreResult::Success ==> same_but_sems(m0, m1) && ctx1 == (ProcessContext { rax: 0, ..ctx0 })
            &&& r is WakeUp ==> {
                let w = r->WakeUp_0;
                &&& ctx1 == ctx0
                &&& m1.current == m0.current
                &&& m1.wait_table@ == m0.wait_table@
                &&& m1.spaces@ == m0.spaces@
                &&& m1.frames == m0.frames
                &&& alive(m0.procs@, w) ==> m1.procs@ == m0.procs@.update(w.0 - 1, wake_spec(m0.proc_spec(w), None))
                    && m1.ready_queue@ == m0.ready_queue@.push(w)
                &&& !alive(m0.procs@, w) ==> m1.procs@ == m0.procs@ && m1.ready_queue@ == m0.ready_queue@
            }
        }
    }
}

/// What the fork system call from `m0` leaves: the fork succeeds exactly
/// when `can_fork` holds. On success the child's saved return value is 0 and
/// the parent's is the child; the parent and then the child are queued. On
/// failure the caller's saved return value is `SYSCALL_FAILED` and it is
/// queued alone. Then the scheduler switches to the next process.
pub open spec fn sys_fork_post(m0: ProcessManager, r: Option<ProcessId>, m1: ProcessManager, ctx1: ProcessContext) -> bool {
    let cur = m0.current;
    &&& r.is_some() == can_fork(m0)
    &&& r.is_some() ==> {
        let c = r.unwrap();
        &&& c.0 == m0.procs@.len() + 1
        &&& m1.procs@.len() == m0.procs@.len() + 1
        &&& m1.proc_spec(c).context.rax == 0
        &&& m1.proc_spec(cur).context.rax == c.0
        &&& m1.proc_spec(c).parent == Some(cur)
        &&& exists|mid: ProcessManager| mid.wf() && mid.ready_queue@ == m0.ready_queue@.push(cur).push(c)
            && #[trigger] switch_post(mid, m1.current, m1, ctx1)
    }
    &&& r.is_none() ==> {
        &&& m1.procs@.len() == m0.procs@.len()
        &&& m1.proc_spec(cur).context.rax == SYSCALL_FAILED
        &&& exists|mid: ProcessManager| mid.wf() && mid.ready_queue@ == m0.ready_queue@.push(cur)
            && #[trigger] switch_post(mid, m1.current, m1, ctx1)
    }
    &&& ctx1 == m1.proc_spec(m1.current).context
    &&& m1.status_of(m1.current) == ProgramStatus::Running
}

/// What moving or reporting the current process's heap end leaves: a dead
/// process gets None; otherwise the heap of its address space, shared with
/// the other sharers, and the free frames are as `brk_spec` says.
pub open spec fn brk_post(m0: ProcessManager, new_end: Option<u64>, r: Option<u64>, m1: ProcessManager) -> bool {
    let vm = m0.proc_spec(m0.current).vm;
    &&& m1.procs@ == m0.procs@
    &&& m1.current == m0.current
    &&& vm.is_none() ==> r.is_none() && m1 == m0
    &&& vm.is_some() ==> {
        let sp = vm.unwrap().space as int;
        let (h, f, res) = brk_spec(m0.spaces@[sp].heap, new_end, m0.frames.free);
        &&& r == res
        &&& m1.spaces@ == m0.spaces@.update(sp, AddressSpace { heap: h, ..m0.spaces@[sp] })
        &&& m1.frames.free == f
        &&& m1.ready_queue@ == m0.ready_queue@
        &&& m1.wait_table@ == m0.wait_table@
        &&& m1.sem_tables@ == m0.sem_tables@
    }
}

/// The registry and scheduler. Process `pid` is `procs[pid - 1]`; entries
/// are never removed, so the exit code of a dead process stays queryable.
/// The kernel process is never dead: the scheduler falls back to it.
pub struct ProcessManager {
    pub procs: Vec<Process>,
    pub ready_queue: VecDeque<ProcessId>,
    /// `wait_table[pid - 1]`: the processes blocked until `pid` exits.
    pub wait_table: Vec<Vec<ProcessId>>,
    pub spaces: Vec<AddressSpace>,
    pub sem_tables: Vec<SemaphoreSet>,
    pub frames: FramePool,
    pub current: ProcessId,
}

impl ProcessManager {
    pub open spec fn wf(&self) -> bool {
        &&& 1 <= self.procs@.len() <= MAX_PID
        &&& forall|i: int| 0 <= i < self.procs@.len()
            ==> #[trigger] self.procs@[i].wf(i, self.spaces@.len() as int, self.sem_tables@.len() as int)
        &&& self.wait_table@.len() == self.procs@.len()
        &&& 1 <= self.current.0 <= self.procs@.len()
        &&& self.procs@[0].status != ProgramStatus::Dead
        &&& forall|j: int| 0 <= j < self.spaces@.len() ==> #[trigger] self.spaces@[j].wf()
    }

    pub open spec fn has(&self, pid: ProcessId) -> bool {
        1 <= pid.0 <= self.procs@.len()
    }

    pub open spec fn proc_spec(&self, pid: ProcessId) -> Process {
        self.procs@[pid.0 - 1]
    }

    pub open spec fn status_of(&self, pid: ProcessId) -> ProgramStatus {
        self.procs@[pid.0 - 1].status
    }

    /// What `get_exit_code(pid)` answers.
    pub open spec fn exit_code_spec(&self, pid: ProcessId) -> Option<isize> {
        if self.has(pid) && self.status_of(pid) == ProgramStatus::Dead {
            self.proc_spec(pid).exit_code
        } else {
            None
        }
    }

    /// A manager whose only process is the kernel, Running, with the
    /// kernel stack, `kernel_code_pages` pages of code and `free_frames`
    /// frames left for everything else.
    pub fn new(name: String, kernel_code_pages: u64, free_frames: u64) -> (r: ProcessManager)
        ensures
            r.wf(),
            r.procs@.len() == 1,
            r.current.0 == KERNEL_PID,
            r.status_of(r.current) == ProgramStatus::Running,
            r.ready_queue@.len() == 0,
            r.frames.free == free_frames,
    {
        let mut spaces: Vec<AddressSpace> = Vec::new();
        spaces.push(AddressSpace::new(kernel_code_pages));
        let mut sem_tables: Vec<SemaphoreSet> = Vec::new();
        sem_tables.push(SemaphoreSet::new());
        let kernel = Process {
            pid: ProcessId(KERNEL_PID),
            name: lowercase_name(name.as_str()),
            parent: None,
            children: Vec::new(),
            ticks_passed: 0,
            status: ProgramStatus::Running,
            context: ProcessContext::zeroed(),
            exit_code: None,
            vm: Some(ProcessVm { space: 0, stack: Stack::kstack() }),
            data: Some(ProcessData { sems: 0 }),
        };
        let mut procs: Vec<Process> = Vec::new();
        procs.push(kernel);
        let mut wait_table: Vec<Vec<ProcessId>> = Vec::new();
        wait_table.push(Vec::new());
        let r = ProcessManager {
            procs,
            ready_queue: VecDeque::new(),
            wait_table,
            spaces,
            sem_tables,
            frames: FramePool::new(free_frames),
            current: ProcessId(KERNEL_PID),
        };
        assert(r.procs@[0].wf(0, 1, 1));
        r
    }

    /// The identifier of the process that runs now.
    pub fn get_pid(&self) -> (r: ProcessId)
        ensures
            r == self.current,
    {
        self.current
    }

    /// The status of process `pid`, if it is registered.
    pub fn status(&self, pid: ProcessId) -> (r: Option<ProgramStatus>)
        ensures
            r == if self.has(pid) { Some(self.status_of(pid)) } else { None::<ProgramStatus> },
    {
        if pid.0 >= 1 && (pid.0 as usize) <= self.procs.len() {
            Some(self.procs[pid.0 as usize - 1].status)
        } else {
            None
        }
    }

    /// The saved return-value register of process `pid`, if registered.
    pub fn saved_rax(&self, pid: ProcessId) -> (r: Option<u64>)
        ensures
            r == if self.has(pid) { Some(self.proc_spec(pid).context.rax) } else { None::<u64> },
    {
        if pid.0 >= 1 && (pid.0 as usize) <= self.procs.len() {
            Some(self.procs[pid.0 as usize - 1].context.rax)
        } else {
            None
        }
    }

    /// The exit code of `pid` if it is registered and dead.
    pub fn get_exit_code(&self, pid: ProcessId) -> (r: Option<isize>)
        requires
            self.wf(),
        ensures
            r == self.exit_code_spec(pid),
    {
        if pid.0 >= 1 && (pid.0 as usize) <= self.procs.len() {
            let i = pid.0 as usize - 1;
            if self.procs[i].status == ProgramStatus::Dead {
                return self.procs[i].exit_code;
            }
        }
        None
    }

    /// Whether `pid` is registered and not dead.
    pub fn still_alive(&self, pid: ProcessId) -> (r: bool)
        ensures
            r == (self.has(pid) && self.status_of(pid) != ProgramStatus::Dead),
    {
        pid.0 >= 1 && (pid.0 as usize) <= self.procs.len()
            && self.procs[pid.0 as usize - 1].status != ProgramStatus::Dead
    }

    /// Appends `pid` to the ready queue.
    pub fn push_ready(&mut self, pid: ProcessId)
        requires
            old(self).wf(),
        ensures
            final(self).wf(),
            final(self).ready_queue@ == old(self).ready_queue@.push(pid),
            final(self).procs@ == old(self).procs@,
            final(self).current == old(self).current,
            final(self).wait_table@ == old(self).wait_table@,
            final(self).spaces@ == old(self).spaces@,
            final(self).frames == old(self).frames,
    {
        self.ready_queue.push_back(pid);
    }

    /// The scheduling step. Pops the ready queue up to and including its
    /// first entry that is Ready, discarding the entries before it; falls
    /// back to the kernel process when there is none. The chosen process is
    /// marked Running, becomes current, and its saved registers are loaded
    /// into `context`.
    pub fn switch_next(&mut self, context: &mut ProcessContext) -> (r: ProcessId)
        requires
            old(self).wf(),
        ensures
            final(self).wf(),
            switch_post(*old(self), r, *final(self), *final(context)),
    {
        let ghost q = self.ready_queue@;
        let ghost n = q.len() as int;
        let ghost procs = self.procs@;
        let ghost mut k: int = 0;
        let mut chosen = ProcessId(KERNEL_PID);
        let mut found = false;
        while !found && self.ready_queue.len() > 0
            invariant
                self.wf(),
                self.procs@ == procs,
                self.wait_table@ == old(self).wait_table@,
                self.spaces@ == old(self).spaces@,
                self.sem_tables@ == old(self).sem_tables@,
                self.frames == old(self).frames,
                self.current == old(self).current,
                procs == old(self).procs@,
                q == old(self).ready_queue@,
                n == q.len(),
                0 <= k <= n,
                self.ready_queue@ == q.subrange(k, n),
                !found ==> first_ready(procs, q) == k + first_ready(procs, self.ready_queue@),
                found ==> k >= 1 && first_ready(procs, q) == k - 1 && chosen == q[k - 1] && ready_entry(procs, chosen),
                !found ==> chosen.0 == KERNEL_PID,
            decreases n - k + (if found { 0int } else { 1int }),
        {
            let pid = self.ready_queue.pop_front().unwrap();
            proof {
                assert(self.ready_queue@ =~= q.subrange(k + 1, n));
                k = k + 1;
            }
            if pid.0 >= 1 && (pid.0 as usize) <= self.procs.len()
                && self.procs[pid.0 as usize - 1].status == ProgramStatus::Ready {
                chosen = pid;
                found = true;
            }
        }
        proof {
            if !found {
                assert(self.ready_queue@.len() == 0);
                assert(k == n);
            }
        }
        let i = chosen.0 as usize - 1;
        self.procs[i].context.restore(context);
        self.procs[i].status = ProgramStatus::Running;
        self.current = chosen;
        proof {
            assert(procs[i as int].wf(i as int, self.spaces@.len() as int, self.sem_tables@.len() as int));
            assert(self.procs@[i as int] == (Process { status: ProgramStatus::Running, ..procs[i as int] }));
            assert forall|j: int| 0 <= j < self.procs@.len()
                implies #[trigger] self.procs@[j].wf(j, self.spaces@.len() as int, self.sem_tables@.len() as int) by {
                if j != i {
                    assert(self.procs@[j] == procs[j]);
                }
            }
        }
        chosen
    }

    /// Charges a tick to the current process and saves the live registers
    /// into it; a Running process becomes Ready (re-queuing it is the
    /// caller's business).
    pub fn save_current(&mut self, context: &ProcessContext)
        requires
            old(self).wf(),
        ensures
            final(self).wf(),
            ({
                let p = old(self).proc_spec(old(self).current);
                final(self).proc_spec(old(self).current) == (Process {
                    ticks_passed: if p.ticks_passed < u64::MAX { (p.ticks_passed + 1) as u64 } else { p.ticks_passed },
                    context: *context,
                    status: if p.status == ProgramStatus::Running { ProgramStatus::Ready } else { p.status },
                    ..p
                })
            }),
            final(self).procs@.len() == old(self).procs@.len(),
            forall|j: int| 0 <= j < old(self).procs@.len() && j != old(self).current.0 - 1
                ==> final(self).procs@[j] == old(self).procs@[j],
            final(self).current == old(self).current,
            final(self).ready_queue@ == old(self).ready_queue@,
            final(self).wait_table@ == old(self).wait_table@,
            final(self).spaces@ == old(self).spaces@,
            final(self).sem_tables@ == old(self).sem_tables@,
            final(self).frames == old(self).frames,
    {
        let i = self.current.0 as usize - 1;
        proof {
            assert(self.procs@[i as int].wf(i as int, self.spaces@.len() as int, self.sem_tables@.len() as int));
        }
        if self.procs[i].ticks_passed < u64::MAX {
            self.procs[i].ticks_passed = self.procs[i].ticks_passed + 1;
        }
        self.procs[i].context.save(context);
        if self.procs[i].status == ProgramStatus::Running {
            self.procs[i].status = ProgramStatus::Ready;
        }
        proof {
            lemma_wf_one_changed(*old(self), *self, i as int);
        }
    }

    /// Makes a live process Ready and queues it, first setting its
    /// return-value register to `ret` when given. Does nothing to a process
    /// that is unknown or dead.
    pub fn wake_up(&mut self, pid: ProcessId, ret: Option<isize>)
        requires
            old(self).wf(),
        ensures
            final(self).wf(),
            alive(old(self).procs@, pid) ==> {
                &&& final(self).procs@ == old(self).procs@.update(pid.0 - 1, wake_spec(old(self).proc_spec(pid), ret))
                &&& final(self).ready_queue@ == old(self).ready_queue@.push(pid)
            },
            !alive(old(self).procs@, pid) ==> {
                &&& final(self).procs@ == old(self).procs@
                &&& final(self).ready_queue@ == old(self).ready_queue@
            },
            final(self).current == old(self).current,
            final(self).wait_table@ == old(self).wait_table@,
            final(self).spaces@ == old(self).spaces@,
            final(self).sem_tables@ == old(self).sem_tables@,
            final(self).frames == old(self).frames,
    {
        if !self.still_alive(pid) {
            return;
        }
        let i = pid.0 as usize - 1;
        proof {
            assert(self.procs@[i as int].wf(i as int, self.spaces@.len() as int, self.sem_tables@.len() as int));
        }
        match ret {
            Some(c) => self.procs[i].context.set_rax(c as u64),
            None => {},
        }
        self.procs[i].status = ProgramStatus::Ready;
        self.ready_queue.push_back(pid);
        proof {
            assert(self.procs@ =~= old(self).procs@.update(i as int, wake_spec(old(self).proc_spec(pid), ret)));
            lemma_wf_one_changed(*old(self), *self, i as int);
        }
    }

    /// Marks a live process Blocked; it is then skipped by the scheduler
    /// until woken. Does nothing to a process that is unknown or dead.
    pub fn block(&mut self, pid: ProcessId)
        requires
            old(self).wf(),
        ensures
            final(self).wf(),
            alive(old(self).procs@, pid) ==> final(self).procs@ == old(self).procs@.update(
                pid.0 - 1, Process { status: ProgramStatus::Blocked, ..old(self).proc_spec(pid) }),
            !alive(old(self).procs@, pid) ==> final(self).procs@ == old(self).procs@,
            final(self).current == old(self).current,
            final(self).ready_queue@ == old(self).ready_queue@,
            final(self).wait_table@ == old(self).wait_table@,
            final(self).spaces@ == old(self).spaces@,
            final(self).sem_tables@ == old(self).sem_tables@,
            final(self).frames == old(self).frames,
    {
        if !self.still_alive(pid) {
            return;
        }
        let i = pid.0 as usize - 1;
        proof {
            assert(self.procs@[i as int].wf(i as int, self.spaces@.len() as int, self.sem_tables@.len() as int));
        }
        self.procs[i].status = ProgramStatus::Blocked;
        proof {
            assert(self.procs@ =~= old(self).procs@.update(i as int,
                Process { status: ProgramStatus::Blocked, ..old(self).proc_spec(pid) }));
            lemma_wf_one_changed(*old(self), *self, i as int);
        }
    }

    /// Tears down the memory of a process being killed: unmaps its stack,
    /// and takes it off its address space; the last sharer out also unmaps
    /// the heap and the code and frees the page table's own frame.
    fn clean_up_vm(&mut self, vm: ProcessVm)
        requires
            vm.space < old(self).spaces@.len(),
            vm.stack.wf(),
            forall|j: int| 0 <= j < old(self).spaces@.len() ==> #[trigger] old(self).spaces@[j].wf(),
        ensures
            final(self).spaces@ == old(self).spaces@.update(vm.space as int, release_space(old(self).spaces@[vm.space as int])),
            forall|j: int| 0 <= j < final(self).spaces@.len() ==> #[trigger] final(self).spaces@[j].wf(),
            final(self).frames.free == teardown_frames(old(self).frames.free, vm, old(self).spaces@[vm.space as int]),
            final(self).procs == old(self).procs,
            final(self).ready_queue == old(self).ready_queue,
            final(self).wait_table == old(self).wait_table,
            final(self).sem_tables == old(self).sem_tables,
            final(self).current == old(self).current,
    {
        let mut st = vm.stack;
        st.clean_up(&mut self.frames);
        let sp = vm.space;
        assert(self.spaces@[sp as int].wf());
        if self.spaces[sp].sharers <= 1 {
            let mut h = self.spaces[sp].heap;
            h.clean_up(&mut self.frames);
            self.spaces[sp].heap = h;
            let code = self.spaces[sp].code_pages;
            self.frames.release(code);
            self.frames.release(1);
            self.spaces[sp].sharers = 0;
        } else {
            self.spaces[sp].sharers = self.spaces[sp].sharers - 1;
        }
        proof {
            assert(self.spaces@ =~= old(self).spaces@.update(sp as int, release_space(old(self).spaces@[sp as int])));
            assert forall|j: int| 0 <= j < self.spaces@.len() implies #[trigger] self.spaces@[j].wf() by {
                if j != sp {
                    assert(self.spaces@[j] == old(self).spaces@[j]);
                }
            }
        }
    }

    /// Kills process `pid` with exit code `ret`. Unknown, dead and kernel
    /// processes are left alone. Otherwise every live process waiting for
    /// `pid` is woken with `ret` and queued, in the order they began to wait;
    /// then `pid` becomes Dead with exit code `ret`, its stack is unmapped,
    /// and its address space loses a sharer.
    pub fn kill(&mut self, pid: ProcessId, ret: isize)
        requires
            old(self).wf(),
        ensures
            final(self).wf(),
            kill_post(*old(self), pid, ret, *final(self)),
    {
        if pid.0 == KERNEL_PID || !self.still_alive(pid) {
            return;
        }
        let i = pid.0 as usize - 1;
        let ghost p0 = self.procs@;
        let ghost q0 = self.ready_queue@;
        let mut ws: Vec<ProcessId> = Vec::new();
        std::mem::swap(&mut ws, &mut self.wait_table[i]);
        let ghost w = ws@;
        assert(w == old(self).wait_table@[i as int]@);
        proof {
            assert(q0 + live_waiters(p0, w.take(0)) =~= q0);
        }
        let mut k: usize = 0;
        while k < ws.len()
            invariant
                self.wf(),
                ws@ == w,
                0 <= k <= w.len(),
                0 <= i < p0.len(),
                p0 == old(self).procs@,
                q0 == old(self).ready_queue@,
                alive(p0, pid),
                pid.0 == i + 1,
                self.procs@.len() == p0.len(),
                self.ready_queue@ == q0 + live_waiters(p0, w.take(k as int)),
                forall|j: int| 0 <= j < p0.len() ==> #[trigger] self.procs@[j] == after_kill(p0, w.take(k as int), j, ret),
                self.wait_table@.len() == old(self).wait_table@.len(),
                self.wait_table@[i as int]@.len() == 0,
                forall|j: int| 0 <= j < old(self).wait_table@.len() && j != i ==> self.wait_table@[j] == old(self).wait_table@[j],
                self.spaces@ == old(self).spaces@,
                self.sem_tables@ == old(self).sem_tables@,
                self.frames == old(self).frames,
                self.current == old(self).current,
            decreases w.len() - k,
        {
            let x = ws[k];
            let ghost before = self.procs@;
            proof {
                if 1 <= x.0 <= p0.len() {
                    let xi = x.0 - 1;
                    assert(self.procs@[xi] == after_kill(p0, w.take(k as int), xi, ret));
                    assert(alive(self.procs@, x) == alive(p0, x));
                }
            }
            self.wake_up(x, Some(ret));
            proof {
                let t0 = w.take(k as int);
                let t1 = w.take(k as int + 1);
                assert(t1.drop_last() =~= t0);
                assert(t1.last() == x);
                assert(live_waiters(p0, t1) == if alive(p0, x) { live_waiters(p0, t0).push(x) } else { live_waiters(p0, t0) });
                assert(self.ready_queue@ =~= q0 + live_waiters(p0, t1));
                assert forall|j: int| 0 <= j < p0.len() implies #[trigger] self.procs@[j] == after_kill(p0, t1, j, ret) by {
                    let y = ProcessId((j + 1) as u16);
                    assert(t1.contains(y) <==> (t0.contains(y) || y == x)) by {
                        if t1.contains(y) {
                            let m = choose|m: int| 0 <= m < t1.len() && t1[m] == y;
                            if m < k { assert(t0[m] == y); }
                        }
                        if t0.contains(y) {
                            let m = choose|m: int| 0 <= m < t0.len() && t0[m] == y;
                            assert(t1[m] == y);
                        }
                        if y == x { assert(t1[k as int] == y); }
                    }
                    assert(before[j] == after_kill(p0, t0, j, ret));
                }
            }
            k = k + 1;
        }
        proof {
            assert(w.take(w.len() as int) =~= w);
            assert(self.procs@[i as int] == after_kill(p0, w, i as int, ret));
            assert(p0[i as int].wf(i as int, self.spaces@.len() as int, self.sem_tables@.len() as int));
        }
        let vm = self.procs[i].vm.unwrap();
        self.clean_up_vm(vm);
        self.procs[i].vm = None;
        self.procs[i].data = None;
        self.procs[i].status = ProgramStatus::Dead;
        self.procs[i].exit_code = Some(ret);
        proof {
            assert(self.procs@[0] == after_kill(p0, w, 0, ret));
            lemma_wf_kill(*old(self), *self, i as int, w, ret);
        }
    }

    /// Registers a new process record with an empty wait list.
    fn add_proc(&mut self, p: Process)
        requires
            old(self).wf(),
            old(self).procs@.len() < MAX_PID,
            p.wf(old(self).procs@.len() as int, old(self).spaces@.len() as int, old(self).sem_tables@.len() as int),
        ensures
            final(self).wf(),
            final(self).procs@ == old(self).procs@.push(p),
            final(self).wait_table@.len() == old(self).wait_table@.len() + 1,
            final(self).wait_table@.subrange(0, old(self).wait_table@.len() as int) == old(self).wait_table@,
            final(self).wait_table@.last()@.len() == 0,
            final(self).ready_queue@ == old(self).ready_queue@,
            final(self).spaces@ == old(self).spaces@,
            final(self).sem_tables@ == old(self).sem_tables@,
            final(self).frames == old(self).frames,
            final(self).current == old(self).current,
    {
        self.procs.push(p);
        self.wait_table.push(Vec::new());
        proof {
            assert(self.wait_table@.subrange(0, old(self).wait_table@.len() as int) =~= old(self).wait_table@);
            assert forall|j: int| 0 <= j < self.procs@.len()
                implies #[trigger] self.procs@[j].wf(j, self.spaces@.len() as int, self.sem_tables@.len() as int) by {
                if j < old(self).procs@.len() {
                    assert(old(self).procs@[j].wf(j, old(self).spaces@.len() as int, old(self).sem_tables@.len() as int));
                }
            }
        }
    }

    /// Creates a process from a loaded image: a fresh address space holding
    /// `code_pages` pages of code, the first page of the user stack, and a
    /// fresh semaphore table. It starts at `entry` with the stack pointer at
    /// `STACK_INIT_TOP`, Ready and queued. It needs `code_pages + 2` free
    /// frames (code, stack, page table) and a free identifier; without them
    /// it returns None and changes nothing.
    pub fn spawn(&mut self, name: String, entry: u64, code_pages: u64, parent: Option<ProcessId>)
        -> (r: Option<ProcessId>)
        requires
            old(self).wf(),
        ensures
            final(self).wf(),
            r.is_some() == (old(self).procs@.len() < MAX_PID && code_pages as int + 2 <= old(self).frames.free),
            r.is_none() ==> *final(self) == *old(self),
            r.is_some() ==> {
                let n = old(self).procs@.len();
                let p = final(self).procs@[n as int];
                &&& r.unwrap().0 == n + 1
                &&& final(self).procs@.len() == n + 1
                &&& final(self).procs@.subrange(0, n as int) == old(self).procs@
                &&& p.pid == r.unwrap()
                &&& p.name@ == ascii_lower(name@)
                &&& p.parent == parent
                &&& p.children@.len() == 0
                &&& p.ticks_passed == 0
                &&& p.status == ProgramStatus::Ready
                &&& p.context == ProcessContext::fresh_spec(entry, STACK_INIT_TOP)
                &&& p.exit_code.is_none()
                &&& p.vm == Some(ProcessVm {
                    space: old(self).spaces@.len() as usize,
                    stack: Stack { bot: STACK_INIT_BOT, usage: 1 },
                })
                &&& p.data == Some(ProcessData { sems: old(self).sem_tables@.len() as usize })
                &&& final(self).spaces@.len() == old(self).spaces@.len() + 1
                &&& final(self).spaces@.last() == (AddressSpace {
                    sharers: 1,
                    heap: Heap { base: HEAP_START, end: HEAP_START },
                    code_pages: code_pages,
                })
                &&& final(self).sem_tables@.len() == old(self).sem_tables@.len() + 1
                &&& final(self).frames.free == old(self).frames.free - code_pages - 2
                &&& final(self).ready_queue@ == old(self).ready_queue@.push(r.unwrap())
                &&& final(self).current == old(self).current
            },
    {
        if self.procs.len() >= MAX_PID as usize || code_pages > self.frames.free
            || self.frames.free - code_pages < 2 {
            return None;
        }
        let pid = ProcessId((self.procs.len() + 1) as u16);
        self.frames.free = self.frames.free - code_pages - 2;
        let space = self.spaces.len();
        self.spaces.push(AddressSpace::new(code_pages));
        let sems = self.sem_tables.len();
        self.sem_tables.push(SemaphoreSet::new());
        let mut context = ProcessContext::zeroed();
        context.init_stack_frame(entry, STACK_INIT_TOP);
        let p = Process {
            pid,
            name: lowercase_name(name.as_str()),
            parent,
            children: Vec::new(),
            ticks_passed: 0,
            status: ProgramStatus::Ready,
            context,
            exit_code: None,
            vm: Some(ProcessVm { space, stack: Stack { bot: STACK_INIT_BOT, usage: 1 } }),
            data: Some(ProcessData { sems }),
        };
        proof {
            assert forall|j: int| 0 <= j < self.spaces@.len() implies #[trigger] self.spaces@[j].wf() by {
                if j < old(self).spaces@.len() {
                    assert(self.spaces@[j] == old(self).spaces@[j]);
                }
            }
            assert forall|j: int| 0 <= j < self.procs@.len()
                implies #[trigger] self.procs@[j].wf(j, self.spaces@.len() as int, self.sem_tables@.len() as int) by {
                assert(old(self).procs@[j].wf(j, old(self).spaces@.len() as int, old(self).sem_tables@.len() as int));
            }
        }
        self.add_proc(p);
        self.ready_queue.push_back(pid);
        proof {
            assert(self.procs@.subrange(0, old(self).procs@.len() as int) =~= old(self).procs@);
        }
        Some(pid)
    }

    /// Creates a process from an image whose entry point is `entry` and
    /// whose loadable segments are `segments`, as `(address, size)`: the code
    /// pages are those the segments touch. None, with nothing changed, when a
    /// segment is invalid or `spawn` refuses.
    pub fn spawn_elf(&mut self, name: String, entry: u64, segments: &Vec<(u64, u64)>, parent: Option<ProcessId>)
        -> (r: Option<ProcessId>)
        requires
            old(self).wf(),
        ensures
            final(self).wf(),
            ({
                let pages = image_pages(segments@);
                &&& r.is_some() == (pages.is_some() && pages.unwrap() + 2 <= old(self).frames.free
                    && old(self).procs@.len() < MAX_PID)
                &&& r.is_none() ==> *final(self) == *old(self)
                &&& r.is_some() ==> {
                    let p = final(self).procs@[old(self).procs@.len() as int];
                    &&& r.unwrap().0 == old(self).procs@.len() + 1
                    &&& p.status == ProgramStatus::Ready
                    &&& p.parent == parent
                    &&& p.context == ProcessContext::fresh_spec(entry, STACK_INIT_TOP)
                    &&& final(self).spaces@.last().code_pages == pages.unwrap()
                    &&& final(self).frames.free == old(self).frames.free - pages.unwrap() - 2
                    &&& final(self).ready_queue@ == old(self).ready_queue@.push(r.unwrap())
                }
            }),
    {
        match code_pages(segments) {
            None => None,
            Some(n) => self.spawn(name, entry, n, parent),
        }
    }

    /// Creates a kernel thread: it shares the kernel process's address
    /// space, gets the first page of its own stack slot and a fresh
    /// semaphore table, and starts at `entry`, Ready and queued. Without a
    /// free identifier or frame it returns None and changes nothing.
    pub fn spawn_kernel_thread(&mut self, name: String, entry: u64) -> (r: Option<ProcessId>)
        requires
            old(self).wf(),
        ensures
            final(self).wf(),
            ({
                let ks = old(self).procs@[0].vm.unwrap().space as int;
                r.is_some() == (old(self).procs@.len() < MAX_PID && old(self).frames.free >= 1
                    && old(self).spaces@[ks].sharers < u64::MAX)
            }),
            r.is_none() ==> *final(self) == *old(self),
            r.is_some() ==> {
                let n = old(self).procs@.len();
                let p = final(self).procs@[n as int];
                let ks = old(self).procs@[0].vm.unwrap().space as int;
                &&& r.unwrap().0 == n + 1
                &&& final(self).procs@.len() == n + 1
                &&& final(self).procs@.subrange(0, n as int) == old(self).procs@
                &&& p.pid == r.unwrap()
                &&& p.name@ == ascii_lower(name@)
                &&& p.parent == Some(ProcessId(KERNEL_PID))
                &&& p.children@.len() == 0
                &&& p.ticks_passed == 0
                &&& p.exit_code.is_none()
                &&& p.data == Some(ProcessData { sems: old(self).sem_tables@.len() as usize })
                &&& final(self).sem_tables@.len() == old(self).sem_tables@.len() + 1
                &&& p.status == ProgramStatus::Ready
                &&& p.context == ProcessContext::fresh_spec(entry, proc_stack_top(r.unwrap().0) as u64)
                &&& p.vm == Some(ProcessVm { space: ks as usize, stack: proc_stack_spec(r.unwrap().0) })
                &&& final(self).spaces@ == old(self).spaces@.update(ks,
                    AddressSpace { sharers: (old(self).spaces@[ks].sharers + 1) as u64, ..old(self).spaces@[ks] })
                &&& final(self).frames.free == old(self).frames.free - 1
                &&& final(self).ready_queue@ == old(self).ready_queue@.push(r.unwrap())
                &&& final(self).current == old(self).current
            },
    {
        proof {
            assert(self.procs@[0].wf(0, self.spaces@.len() as int, self.sem_tables@.len() as int));
        }
        let ks = self.procs[0].vm.unwrap().space;
        if self.procs.len() >= MAX_PID as usize || self.frames.free < 1 || self.spaces[ks].sharers == u64::MAX {
            return None;
        }
        let pid = ProcessId((self.procs.len() + 1) as u16);
        let mut vm = ProcessVm { space: ks, stack: Stack::empty() };
        let top = vm.init_proc_stack(pid, &mut self.frames).unwrap();
        self.spaces[ks].sharers = self.spaces[ks].sharers + 1;
        let sems = self.sem_tables.len();
        self.sem_tables.push(SemaphoreSet::new());
        let mut context = ProcessContext::zeroed();
        context.init_stack_frame(entry, top);
        let p = Process {
            pid,
            name: lowercase_name(name.as_str()),
            parent: Some(ProcessId(KERNEL_PID)),
            children: Vec::new(),
            ticks_passed: 0,
            status: ProgramStatus::Ready,
            context,
            exit_code: None,
            vm: Some(vm),
            data: Some(ProcessData { sems }),
        };
        proof {
            assert(self.spaces@ =~= old(self).spaces@.update(ks as int,
                AddressSpace { sharers: (old(self).spaces@[ks as int].sharers + 1) as u64, ..old(self).spaces@[ks as int] }));
            assert forall|j: int| 0 <= j < self.spaces@.len() implies #[trigger] self.spaces@[j].wf() by {
                assert(old(self).spaces@[j].wf());
            }
            assert forall|j: int| 0 <= j < self.procs@.len()
                implies #[trigger] self.procs@[j].wf(j, self.spaces@.len() as int, self.sem_tables@.len() as int) by {
                assert(old(self).procs@[j].wf(j, old(self).spaces@.len() as int, old(self).sem_tables@.len() as int));
            }
        }
        self.add_proc(p);
        self.ready_queue.push_back(pid);
        proof {
            assert(self.procs@.subrange(0, old(self).procs@.len() as int) =~= old(self).procs@);
        }
        Some(pid)
    }

    /// Duplicates the current process. The child gets the next identifier,
    /// shares the parent's address space (one more sharer) and semaphore
    /// table, and gets a copy of the parent's stack at the same offset in
    /// its own stack slot; its saved registers are the parent's with the
    /// stack pointer moved into that slot and 0 as return value. The parent's
    /// saved return value becomes the child's identifier and the child joins
    /// its children. Stack slots go by identifier, so the copy never lands
    /// on another process's stack in the shared address space and no retry
    /// at a further slot is needed. The child is Ready but not queued. Without a live
    /// current process, a free identifier, or frames for the stack copy it
    /// returns None and changes nothing.
    pub fn fork(&mut self) -> (r: Option<ProcessId>)
        requires
            old(self).wf(),
        ensures
            final(self).wf(),
            r.is_some() == can_fork(*old(self)),
            fork_post(*old(self), r, *final(self)),
    {
        let i = self.current.0 as usize - 1;
        proof {
            assert(self.procs@[i as int].wf(i as int, self.spaces@.len() as int, self.sem_tables@.len() as int));
        }
        if self.procs[i].status == ProgramStatus::Dead || self.procs.len() >= MAX_PID as usize {
            return None;
        }
        let pvm = self.procs[i].vm.unwrap();
        let pdata = self.procs[i].data;
        if pvm.stack.usage > self.frames.free || self.spaces[pvm.space].sharers == u64::MAX {
            return None;
        }
        let c = ProcessId((self.procs.len() + 1) as u16);
        let slot = stack_slot_base(c.0);
        let stack = pvm.stack.fork(slot, &mut self.frames).unwrap();
        let mut context = self.procs[i].context;
        context.set_rax(0);
        context.update_rsp(slot + self.procs[i].context.rsp % STACK_MAX_SIZE);
        let name = self.procs[i].name.clone();
        self.spaces[pvm.space].sharers = self.spaces[pvm.space].sharers + 1;
        self.procs[i].context.set_rax(c.0 as u64);
        self.procs[i].children.push(c);
        let child = Process {
            pid: c,
            name,
            parent: Some(self.current),
            children: Vec::new(),
            ticks_passed: 0,
            status: ProgramStatus::Ready,
            context,
            exit_code: None,
            vm: Some(ProcessVm { space: pvm.space, stack }),
            data: pdata,
        };
        proof {
            let sp = pvm.space as int;
            assert(self.spaces@ =~= old(self).spaces@.update(sp,
                AddressSpace { sharers: (old(self).spaces@[sp].sharers + 1) as u64, ..old(self).spaces@[sp] }));
            assert forall|j: int| 0 <= j < self.spaces@.len() implies #[trigger] self.spaces@[j].wf() by {
                assert(old(self).spaces@[j].wf());
            }
            assert forall|j: int| 0 <= j < self.procs@.len()
                implies #[trigger] self.procs@[j].wf(j, self.spaces@.len() as int, self.sem_tables@.len() as int) by {
                assert(old(self).procs@[j].wf(j, old(self).spaces@.len() as int, old(self).sem_tables@.len() as int));
            }
            assert(self.procs@[0].status != ProgramStatus::Dead);
        }
        self.add_proc(child);
        Some(c)
    }

    /// Saves and blocks the live current process, then switches to the next.
    fn block_current(&mut self, context: &mut ProcessContext)
        requires
            old(self).wf(),
            alive(old(self).procs@, old(self).current),
        ensures
            final(self).wf(),
            block_and_switch(*old(self), *old(context), *final(self), *final(context)),
            final(self).wait_table@ == old(self).wait_table@,
            final(self).sem_tables@ == old(self).sem_tables@,
            forall|j: int| 0 <= j < old(self).procs@.len()
                ==> ((#[trigger] final(self).procs@[j]).status == ProgramStatus::Dead)
                    == (old(self).procs@[j].status == ProgramStatus::Dead),
    {
        let cur = self.current;
        let ghost ctx0 = *context;
        self.save_current(context);
        let ghost m_b = *self;
        self.block(cur);
        let ghost m_c = *self;
        proof {
            let p = old(self).proc_spec(cur);
            assert(m_c.procs@ =~= old(self).procs@.update(cur.0 - 1, Process {
                ticks_passed: if p.ticks_passed < u64::MAX { (p.ticks_passed + 1) as u64 } else { p.ticks_passed },
                context: ctx0,
                status: ProgramStatus::Blocked,
                ..p
            }));
        }
        let r = self.switch_next(context);
        proof {
            assert(block_step(*old(self), ctx0, m_c));
            assert(switch_post(m_c, self.current, *self, *context));
            lemma_first_ready(m_c.procs@, m_c.ready_queue@);
            assert(m_c.procs@[0].status != ProgramStatus::Dead);
            assert(!ready_entry(m_c.procs@, cur));
            if r != cur {
                assert(self.procs@[cur.0 - 1] == m_c.procs@[cur.0 - 1]);
            }
            let q = m_c.ready_queue@;
            let fr = first_ready(m_c.procs@, q) as int;
            if !old(self).ready_queue@.contains(cur) && self.ready_queue@.contains(cur) {
                let k = choose|k: int| 0 <= k < self.ready_queue@.len() && self.ready_queue@[k] == cur;
                assert(q[k + fr + 1] == cur);
            }
            assert forall|j: int| 0 <= j < old(self).procs@.len()
                implies ((#[trigger] self.procs@[j]).status == ProgramStatus::Dead)
                    == (old(self).procs@[j].status == ProgramStatus::Dead) by {
                if j != r.0 - 1 {
                    assert(self.procs@[j] == m_c.procs@[j]);
                }
                if j != cur.0 - 1 {
                    assert(m_c.procs@[j] == old(self).procs@[j]);
                }
            }
        }
    }

    /// Waits for process `pid` to exit; see `wait_pid_post`.
    pub fn wait_pid(&mut self, pid: ProcessId, context: &mut ProcessContext)
        requires
            old(self).wf(),
        ensures
            final(self).wf(),
            wait_pid_post(*old(self), *old(context), pid, *final(self), *final(context)),
    {
        match self.get_exit_code(pid) {
            Some(c) => {
                context.set_rax(c as u64);
            },
            None => {
                if !self.still_alive(pid) || pid == self.current || !self.still_alive(self.current) {
                    context.set_rax(SYSCALL_FAILED);
                    return;
                }
                let cur = self.current;
                let i = pid.0 as usize - 1;
                self.wait_table[i].push(cur);
                proof {
                    assert(self.procs@[0].status != ProgramStatus::Dead);
                }
                proof {
                    assert(self.procs@ == old(self).procs@);
                }
                self.block_current(context);
            },
        }
    }

    /// Kills the current process with exit code `ret`; see `kill_post`.
    pub fn kill_current(&mut self, ret: isize)
        requires
            old(self).wf(),
        ensures
            final(self).wf(),
            kill_post(*old(self), old(self).current, ret, *final(self)),
    {
        let cur = self.current;
        self.kill(cur, ret);
    }

    /// The exit system call: kills the current process with `ret` and
    /// switches to the next one, which is returned.
    pub fn exit(&mut self, ret: isize, context: &mut ProcessContext) -> (r: ProcessId)
        requires
            old(self).wf(),
        ensures
            final(self).wf(),
            exists|m: ProcessManager| m.wf() && kill_post(*old(self), old(self).current, ret, m)
                && switch_post(m, r, *final(self), *final(context)),
    {
        self.kill_current(ret);
        self.switch_next(context)
    }

    /// The semaphore table of the current process, if it is alive.
    fn current_sems(&self) -> (r: Option<usize>)
        requires
            self.wf(),
        ensures
            r.is_some() == self.proc_spec(self.current).data.is_some(),
            r.is_some() ==> r.unwrap() == self.proc_spec(self.current).data.unwrap().sems,
            r.is_some() ==> r.unwrap() < self.sem_tables@.len(),
    {
        let i = self.current.0 as usize - 1;
        proof {
            assert(self.procs@[i as int].wf(i as int, self.spaces@.len() as int, self.sem_tables@.len() as int));
        }
        match self.procs[i].data {
            Some(d) => Some(d.sems),
            None => None,
        }
    }

    /// Creates semaphore `key` with counter `value` in the current process's
    /// table; false if the key is taken or the process is dead.
    pub fn new_sem(&mut self, key: u32, value: usize) -> (r: bool)
        requires
            old(self).wf(),
        ensures
            final(self).wf(),
            new_sem_post(*old(self), key, value, r, *final(self)),
    {
        match self.current_sems() {
            None => false,
            Some(t) => {
                let r = self.sem_tables[t].insert(key, value);
                proof { lemma_sems_wf(*old(self), *self); }
                r
            },
        }
    }

    /// Removes semaphore `key` from the current process's table; false if
    /// there was none or the process is dead.
    pub fn remove_sem(&mut self, key: u32) -> (r: bool)
        requires
            old(self).wf(),
        ensures
            final(self).wf(),
            remove_sem_post(*old(self), key, r, *final(self)),
    {
        match self.current_sems() {
            None => false,
            Some(t) => {
                let r = self.sem_tables[t].remove(key);
                proof { lemma_sems_wf(*old(self), *self); }
                r
            },
        }
    }

    /// The semaphore wait system call; see `sem_wait_post`.
    pub fn sem_wait(&mut self, key: u32, context: &mut ProcessContext) -> (r: SemaphoreResult)
        requires
            old(self).wf(),
        ensures
            final(self).wf(),
            sem_wait_post(*old(self), *old(context), key, r, *final(self), *final(context)),
    {
        let cur = self.current;
        let t = match self.current_sems() {
            None => {
                context.set_rax(1);
                return SemaphoreResult::NotExist;
            },
            Some(t) => t,
        };
        let r = self.sem_tables[t].wait(key, cur);
        proof {
            lemma_sems_wf(*old(self), *self);
        }
        match r {
            SemaphoreResult::Block(_) => {
                proof {
                    assert(self.procs@[cur.0 - 1].wf(cur.0 - 1, self.spaces@.len() as int, self.sem_tables@.len() as int));
                }
                self.block_current(context);
            },
            SemaphoreResult::NotExist => context.set_rax(1),
            _ => context.set_rax(0),
        }
        r
    }

    /// The semaphore signal system call; see `sem_signal_post`.
    pub fn sem_signal(&mut self, key: u32, context: &mut ProcessContext) -> (r: SemaphoreResult)
        requires
            old(self).wf(),
        ensures
            final(self).wf(),
            sem_signal_post(*old(self), *old(context), key, r, *final(self), *final(context)),
    {
        let t = match self.current_sems() {
            None => {
                context.set_rax(1);
                return SemaphoreResult::NotExist;
            },
            Some(t) => t,
        };
        let r = self.sem_tables[t].signal(key);
        proof {
            lemma_sems_wf(*old(self), *self);
        }
        match r {
            SemaphoreResult::WakeUp(w) => {
                self.wake_up(w, None);
            },
            SemaphoreResult::NotExist => context.set_rax(1),
            _ => context.set_rax(0),
        }
        r
    }

    /// Moves or reports the end of the current process's heap, shared with
    /// the other users of its address space; None for a dead process.
    pub fn brk(&mut self, new_end: Option<u64>) -> (r: Option<u64>)
        requires
            old(self).wf(),
        ensures
            final(self).wf(),
            brk_post(*old(self), new_end, r, *final(self)),
    {
        let i = self.current.0 as usize - 1;
        proof {
            assert(self.procs@[i as int].wf(i as int, self.spaces@.len() as int, self.sem_tables@.len() as int));
        }
        match self.procs[i].vm {
            None => None,
            Some(vm) => {
                let sp = vm.space;
                assert(self.spaces@[sp as int].wf());
                let mut h = self.spaces[sp].heap;
                let r = h.brk(new_end, &mut self.frames);
                self.spaces[sp].heap = h;
                proof {
                    assert(self.spaces@ =~= old(self).spaces@.update(sp as int,
                        AddressSpace { heap: h, ..old(self).spaces@[sp as int] }));
                    assert forall|j: int| 0 <= j < self.spaces@.len() implies #[trigger] self.spaces@[j].wf() by {
                        assert(old(self).spaces@[j].wf());
                    }
                    assert forall|j: int| 0 <= j < self.procs@.len()
                        implies #[trigger] self.procs@[j].wf(j, self.spaces@.len() as int, self.sem_tables@.len() as int) by {
                        assert(old(self).procs@[j].wf(j, old(self).spaces@.len() as int, old(self).sem_tables@.len() as int));
                    }
                }
                r
            },
        }
    }

    /// Routes a page fault at `addr` to the current process's stack. Only a
    /// protection violation caused by a write can be recovered; anything
    /// else, or a dead current process, gives false at once.
    pub fn handle_page_fault(&mut self, addr: u64, protection_violation: bool, caused_by_write: bool) -> (r: bool)
        requires
            old(self).wf(),
        ensures
            final(self).wf(),
            ({
                let cur = old(self).current;
                let vm = old(self).proc_spec(cur).vm;
                let st = vm.unwrap().stack;
                let n = (st.bot - page_of(addr)) / 4096;
                &&& r == (protection_violation && caused_by_write && vm.is_some() && st.on_stack(addr)
                    && page_of(addr) < st.bot && n <= old(self).frames.free)
                &&& !r ==> *final(self) == *old(self)
                &&& r ==> {
                    &&& final(self).procs@ == old(self).procs@.update(cur.0 - 1, Process {
                        vm: Some(ProcessVm {
                            stack: Stack { bot: page_of(addr) as u64, usage: (st.usage + n) as u64 },
                            ..vm.unwrap()
                        }),
                        ..old(self).proc_spec(cur)
                    })
                    &&& final(self).frames.free == old(self).frames.free - n
                    &&& final(self).spaces@ == old(self).spaces@
                    &&& final(self).ready_queue@ == old(self).ready_queue@
                    &&& final(self).wait_table@ == old(self).wait_table@
                    &&& final(self).sem_tables@ == old(self).sem_tables@
                    &&& final(self).current == cur
                }
            }),
    {
        if !(protection_violation && caused_by_write) {
            return false;
        }
        let i = self.current.0 as usize - 1;
        proof {
            assert(self.procs@[i as int].wf(i as int, self.spaces@.len() as int, self.sem_tables@.len() as int));
        }
        match self.procs[i].vm {
            None => false,
            Some(vm) => {
                let mut st = vm.stack;
                let ghost f0 = self.frames;
                let ok = st.handle_page_fault(addr, &mut self.frames);
                if ok {
                    self.procs[i].vm = Some(ProcessVm { stack: st, ..vm });
                    proof {
                        lemma_wf_one_changed(*old(self), *self, i as int);
                        assert(self.procs@ =~= old(self).procs@.update(i as int, Process {
                            vm: Some(ProcessVm { stack: st, ..vm }),
                            ..old(self).proc_spec(self.current)
                        }));
                    }
                } else {
                    assert(self.frames == f0);
                }
                ok
            },
        }
    }

    /// The fork system call: saves the caller, forks it, queues the parent
    /// and then the child, and switches to the next process. A failed fork
    /// puts `SYSCALL_FAILED` in the caller's saved return-value register and
    /// queues the caller alone.
    pub fn sys_fork(&mut self, context: &mut ProcessContext) -> (r: Option<ProcessId>)
        requires
            old(self).wf(),
        ensures
            final(self).wf(),
            sys_fork_post(*old(self), r, *final(self), *final(context)),
    {
        let cur = self.current;
        self.save_current(context);
        proof {
            assert(self.procs@[cur.0 - 1].vm == old(self).procs@[cur.0 - 1].vm);
            assert(can_fork(*self) == can_fork(*old(self)));
        }
        let child = self.fork();
        match child {
            Some(c) => {
                self.push_ready(cur);
                self.push_ready(c);
            },
            None => {
                let i = cur.0 as usize - 1;
                proof {
                    assert(self.procs@[i as int].wf(i as int, self.spaces@.len() as int, self.sem_tables@.len() as int));
                }
                self.procs[i].context.set_rax(SYSCALL_FAILED);
                proof {
                    lemma_wf_one_changed(*old(self), *self, i as int);
                }
                self.push_ready(cur);
            },
        }
        let ghost m = *self;
        let n = self.switch_next(context);
        proof {
            assert(switch_post(m, self.current, *self, *context));
            if child.is_some() {
                let c = child.unwrap();
                if n != c { assert(self.procs@[c.0 - 1] == m.procs@[c.0 - 1]); }
                if n != cur { assert(self.procs@[cur.0 - 1] == m.procs@[cur.0 - 1]); }
            }
        }
        child
    }

    /// The listing rows of the live processes, by identifier.
    pub fn process_list(&self) -> (r: Vec<ProcessInfo>)
        requires
            self.wf(),
        ensures
            r@ == live_rows(self.procs@),
    {
        let mut rows: Vec<ProcessInfo> = Vec::new();
        let mut i: usize = 0;
        while i < self.procs.len()
            invariant
                self.wf(),
                i <= self.procs@.len(),
                rows@ == live_rows(self.procs@.take(i as int)),
            decreases self.procs@.len() - i,
        {
            proof {
                assert(self.procs@[i as int].wf(i as int, self.spaces@.len() as int, self.sem_tables@.len() as int));
                assert(self.procs@.take(i as int + 1).drop_last() =~= self.procs@.take(i as int));
            }
            let p = &self.procs[i];
            if p.status != ProgramStatus::Dead {
                let vm = p.vm.unwrap();
                let row = ProcessInfo {
                    pid: p.pid.0,
                    parent: match p.parent { Some(q) => q.0, None => 0 },
                    ticks_passed: p.ticks_passed,
                    status: p.status,
                    memory: vm.memory_usage(),
                };
                rows.push(row);
            }
            i = i + 1;
        }
        proof {
            assert(self.procs@.take(self.procs@.len() as int) =~= self.procs@);
        }
        rows
    }
}

/// The entry that `first_ready` finds is Ready, and none before it is.
pub proof fn lemma_first_ready(procs: Seq<Process>, q: Seq<ProcessId>)
    ensures
        first_ready(procs, q) <= q.len(),
        first_ready(procs, q) < q.len() ==> ready_entry(procs, q[first_ready(procs, q) as int]),
        forall|k: int| 0 <= k < first_ready(procs, q) ==> !ready_entry(procs, #[trigger] q[k]),
    decreases q.len(),
{
    if q.len() > 0 && !ready_entry(procs, q[0]) {
        lemma_first_ready(procs, q.drop_first());
        assert forall|k: int| 0 <= k < first_ready(procs, q) implies !ready_entry(procs, #[trigger] q[k]) by {
            if k > 0 {
                assert(q[k] == q.drop_first()[k - 1]);
            }
        }
    }
}

/// A scheduling step never picks a dead process and leaves the pick
/// Running; when the ready queue holds a Ready process, the first such entry
/// is the one picked, and every entry before it was not Ready.
pub proof fn lemma_switch_picks_first_ready(m0: ProcessManager, r: ProcessId, m1: ProcessManager, ctx: ProcessContext)
    requires
        m0.wf(),
        switch_post(m0, r, m1, ctx),
    ensures
        m0.status_of(r) != ProgramStatus::Dead,
        m1.status_of(r) == ProgramStatus::Running,
        (exists|k: int| 0 <= k < m0.ready_queue@.len() && ready_entry(m0.procs@, #[trigger] m0.ready_queue@[k])) ==> {
            let q = m0.ready_queue@;
            let i = first_ready(m0.procs@, q) as int;
            &&& i < q.len()
            &&& r == q[i]
            &&& forall|k: int| 0 <= k < i ==> !ready_entry(m0.procs@, #[trigger] q[k])
        },
{
    let q = m0.ready_queue@;
    lemma_first_ready(m0.procs@, q);
    if exists|k: int| 0 <= k < q.len() && ready_entry(m0.procs@, #[trigger] q[k]) {
        let k = choose|k: int| 0 <= k < q.len() && ready_entry(m0.procs@, #[trigger] q[k]);
        assert(first_ready(m0.procs@, q) <= k);
    }
}

/// Once `kill(pid, ret)` has taken effect, the exit code of `pid` is `ret`;
/// a second kill of `pid` changes nothing, so the code stays `ret`.
pub proof fn lemma_kill_exit_code_stable(
    m0: ProcessManager,
    pid: ProcessId,
    ret: isize,
    m1: ProcessManager,
    ret2: isize,
    m2: ProcessManager,
)
    requires
        m0.wf(),
        killable(m0.procs@, pid),
        kill_post(m0, pid, ret, m1),
        kill_post(m1, pid, ret2, m2),
    ensures
        m1.exit_code_spec(pid) == Some(ret),
        m1.has(pid),
        m1.status_of(pid) == ProgramStatus::Dead,
        m2 == m1,
        m2.exit_code_spec(pid) == Some(ret),
{
}

/// A fork that can happen does: afterwards the child's saved return value
/// is 0 and the parent's is the child's identifier, which differs from the
/// parent's.
pub proof fn lemma_fork_return_values(m0: ProcessManager, r: Option<ProcessId>, m1: ProcessManager)
    requires
        m0.wf(),
        can_fork(m0),
        r.is_some() == can_fork(m0),
        fork_post(m0, r, m1),
    ensures
        r.is_some(),
        r.unwrap() != m0.current,
        m1.proc_spec(r.unwrap()).context.rax == 0,
        m1.proc_spec(m0.current).context.rax == r.unwrap().0,
{
}

/// A Ready process at position `k` of the ready queue is picked by the next
/// scheduling step, or stays Ready at a smaller position. As entries only
/// ever join at the back, it is therefore picked within `k + 1` steps unless
/// it is killed or blocked first.
pub proof fn lemma_switch_progress(
    m0: ProcessManager,
    r: ProcessId,
    m1: ProcessManager,
    ctx: ProcessContext,
    w: ProcessId,
    k: int,
)
    requires
        m0.wf(),
        switch_post(m0, r, m1, ctx),
        0 <= k < m0.ready_queue@.len(),
        m0.ready_queue@[k] == w,
        ready_entry(m0.procs@, w),
    ensures
        r == w || exists|k2: int| 0 <= k2 < k && m1.ready_queue@[k2] == w && ready_entry(m1.procs@, w),
{
    let q = m0.ready_queue@;
    lemma_first_ready(m0.procs@, q);
    let i = first_ready(m0.procs@, q) as int;
    assert(i <= k);
    if i < k && r != w {
        let k2 = k - i - 1;
        assert(m1.ready_queue@[k2] == q[k]);
        assert(m1.procs@[w.0 - 1] == m0.procs@[w.0 - 1]);
    }
}

/// A process that waits for a live `pid` blocks; when `pid` is then killed
/// with `ret`, the waiter is Ready with `ret` in its return-value register
/// and sits in the ready queue.
pub proof fn lemma_wait_then_exit(
    m0: ProcessManager,
    ctx0: ProcessContext,
    pid: ProcessId,
    m1: ProcessManager,
    ctx1: ProcessContext,
    ret: isize,
    m2: ProcessManager,
)
    requires
        m0.wf(),
        wait_blocks(m0, pid),
        pid.0 != KERNEL_PID,
        wait_pid_post(m0, ctx0, pid, m1, ctx1),
        m1.wf(),
        kill_post(m1, pid, ret, m2),
    ensures
        m2.status_of(m0.current) == ProgramStatus::Ready,
        m2.proc_spec(m0.current).context.rax == ret as u64,
        m2.ready_queue@.contains(m0.current),
{
    let c = m0.current;
    let ws = m1.wait_table@[pid.0 - 1]@;
    assert(m1.procs@[pid.0 - 1].status != ProgramStatus::Dead);
    assert(killable(m1.procs@, pid));
    assert(m1.procs@[c.0 - 1].status != ProgramStatus::Dead);
    assert(ws.last() == c);
    assert(ws.contains(c)) by {
        assert(ws[ws.len() - 1] == c);
    }
    assert(ProcessId(((c.0 - 1) + 1) as u16) == c);
    assert(m2.procs@[c.0 - 1] == after_kill(m1.procs@, ws, c.0 - 1, ret));
    let lw = live_waiters(m1.procs@, ws);
    assert(lw == live_waiters(m1.procs@, ws.drop_last()).push(c));
    let q2 = m2.ready_queue@;
    assert(q2[q2.len() - 1] == c);
}

/// Changing a semaphore table keeps the manager well formed.
proof fn lemma_sems_wf(m0: ProcessManager, m1: ProcessManager)
    requires
        m0.wf(),
        m1.sem_tables@.len() == m0.sem_tables@.len(),
        m1.procs@ == m0.procs@,
        m1.wait_table@ == m0.wait_table@,
        m1.spaces@ == m0.spaces@,
        m1.current == m0.current,
    ensures
        m1.wf(),
{
    assert forall|j: int| 0 <= j < m1.procs@.len()
        implies #[trigger] m1.procs@[j].wf(j, m1.spaces@.len() as int, m1.sem_tables@.len() as int) by {
        assert(m0.procs@[j].wf(j, m0.spaces@.len() as int, m0.sem_tables@.len() as int));
    }
}

/// Killing one process keeps the manager well formed.
proof fn lemma_wf_kill(m0: ProcessManager, m1: ProcessManager, i: int, ws: Seq<ProcessId>, ret: isize)
    requires
        m0.wf(),
        0 < i < m0.procs@.len(),
        m1.procs@.len() == m0.procs@.len(),
        forall|j: int| 0 <= j < m0.procs@.len() && j != i
            ==> #[trigger] m1.procs@[j] == after_kill(m0.procs@, ws, j, ret),
        m1.procs@[i].wf(i, m1.spaces@.len() as int, m1.sem_tables@.len() as int),
        m1.spaces@.len() == m0.spaces@.len(),
        m1.sem_tables@.len() == m0.sem_tables@.len(),
        forall|j: int| 0 <= j < m1.spaces@.len() ==> #[trigger] m1.spaces@[j].wf(),
        m1.wait_table@.len() == m0.wait_table@.len(),
        m1.current == m0.current,
    ensures
        m1.wf(),
{
    assert forall|j: int| 0 <= j < m1.procs@.len()
        implies #[trigger] m1.procs@[j].wf(j, m1.spaces@.len() as int, m1.sem_tables@.len() as int) by {
        if j != i {
            assert(m0.procs@[j].wf(j, m0.spaces@.len() as int, m0.sem_tables@.len() as int));
        }
    }
    assert(m0.procs@[0].wf(0, m0.spaces@.len() as int, m0.sem_tables@.len() as int));
}

/// Changing one process record keeps the manager well formed when the new
/// record is well formed and the kernel stays alive.
proof fn lemma_wf_one_changed(m0: ProcessManager, m1: ProcessManager, i: int)
    requires
        m0.wf(),
        0 <= i < m0.procs@.len(),
        m1.procs@.len() == m0.procs@.len(),
        forall|j: int| 0 <= j < m0.procs@.len() && j != i ==> m1.procs@[j] == m0.procs@[j],
        m1.procs@[i].wf(i, m1.spaces@.len() as int, m1.sem_tables@.len() as int),
        m1.procs@[0].status != ProgramStatus::Dead,
        m1.spaces@.len() >= m0.spaces@.len(),
        m1.sem_tables@.len() >= m0.sem_tables@.len(),
        forall|j: int| 0 <= j < m1.spaces@.len() ==> #[trigger] m1.spaces@[j].wf(),
        m1.wait_table@.len() == m0.wait_table@.len(),
        m1.current == m0.current,
    ensures
        m1.wf(),
{
    assert forall|j: int| 0 <= j < m1.procs@.len()
        implies #[trigger] m1.procs@[j].wf(j, m1.spaces@.len() as int, m1.sem_tables@.len() as int) by {
        if j != i {
            assert(m0.procs@[j].wf(j, m0.spaces@.len() as int, m0.sem_tables@.len() as int));
        }
    }
}

} // verus!
