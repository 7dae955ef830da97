//! System call numbers and the dispatch of the process-management calls.
use vstd::prelude::*;
use crate::context::ProcessContext;
use crate::manager::{
    ProcessInfo, ProcessManager, SYSCALL_FAILED, brk_post, kill_post, live_rows, new_sem_post, remove_sem_post,
    sem_signal_post, sem_wait_post, switch_post, sys_fork_post, wait_pid_post,
};
use crate::memory::brk_spec;
use crate::sem::SemaphoreResult;
use crate::process::ProcessId;

verus! {

/// The system calls, by number.
#[derive(Clone, Copy, Debug, PartialEq, Eq, Structural)]
pub enum Syscall {
    Read,
    Write,
    GetPid,
    Sem,
    Fork,
    Spawn,
    Exit,
    WaitPid,
    ListApp,
    Stat,
    Allocate,
    Deallocate,
    Time,
    ListDir,
    OpenFile,
    CloseFile,
    Brk,
    Unknown,
}

/// The call that number `n` names; unassigned numbers name `Unknown`.
pub open spec fn syscall_of(n: usize) -> Syscall {
    if n == 0 { Syscall::Read }
    else if n == 1 { Syscall::Write }
    else if n == 39 { Syscall::GetPid }
    else if n == 41 { Syscall::Sem }
    else if n == 42 { Syscall::ListDir }
    else if n == 43 { Syscall::OpenFile }
    else if n == 44 { Syscall::CloseFile }
    else if n == 45 { Syscall::Brk }
    else if n == 58 { Syscall::Fork }
    else if n == 59 { Syscall::Spawn }
    else if n == 60 { Syscall::Exit }
    else if n == 64 { Syscall::WaitPid }
    else if n == 65529 { Syscall::Time }
    else if n == 65531 { Syscall::ListApp }
    else if n == 65532 { Syscall::Stat }
    else if n == 65533 { Syscall::Allocate }
    else if n == 65534 { Syscall::Deallocate }
    else { Syscall::Unknown }
}

/// The number of each call.
pub open spec fn number_of(s: Syscall) -> usize {
    match s {
        Syscall::Read => 0,
        Syscall::Write => 1,
        Syscall::GetPid => 39,
        Syscall::Sem => 41,
        Syscall::ListDir => 42,
        Syscall::OpenFile => 43,
        Syscall::CloseFile => 44,
        Syscall::Brk => 45,
        Syscall::Fork => 58,
        Syscall::Spawn => 59,
        Syscall::Exit => 60,
        Syscall::WaitPid => 64,
        Syscall::Time => 65529,
        Syscall::ListApp => 65531,
        Syscall::Stat => 65532,
        Syscall::Allocate => 65533,
        Syscall::Deallocate => 65534,
        Syscall::Unknown => 65535,
    }
}

impl Syscall {
    /// The call that number `n` names.
    pub fn from_usize(n: usize) -> (r: Syscall)
        ensures
            r == syscall_of(n),
    {
        match n {
            0 => Syscall::Read,
            1 => Syscall::Write,
            39 => Syscall::GetPid,
            41 => Syscall::Sem,
            42 => Syscall::ListDir,
            43 => Syscall::OpenFile,
            44 => Syscall::CloseFile,
            45 => Syscall::Brk,
            58 => Syscall::Fork,
            59 => Syscall::Spawn,
            60 => Syscall::Exit,
            64 => Syscall::WaitPid,
            65529 => Syscall::Time,
            65531 => Syscall::ListApp,
            65532 => Syscall::Stat,
            65533 => Syscall::Allocate,
            65534 => Syscall::Deallocate,
            _ => Syscall::Unknown,
        }
    }

    /// The number of this call.
    pub fn number(&self) -> (r: usize)
        ensures
            r == number_of(*self),
    {
        match self {
            Syscall::Read => 0,
            Syscall::Write => 1,
            Syscall::GetPid => 39,
            Syscall::Sem => 41,
            Syscall::ListDir => 42,
            Syscall::OpenFile => 43,
            Syscall::CloseFile => 44,
            Syscall::Brk => 45,
            Syscall::Fork => 58,
            Syscall::Spawn => 59,
            Syscall::Exit => 60,
            Syscall::WaitPid => 64,
            Syscall::Time => 65529,
            Syscall::ListApp => 65531,
            Syscall::Stat => 65532,
            Syscall::Allocate => 65533,
            Syscall::Deallocate => 65534,
            Syscall::Unknown => 65535,
        }
    }
}

/// The untyped argument words of a trapped system call.
#[derive(Clone, Copy, Debug, PartialEq, Eq, Structural)]
pub struct SyscallArgs {
    pub syscall: usize,
    pub arg0: usize,
    pub arg1: usize,
    pub arg2: usize,
}

/// The identifier of the current process.
pub fn sys_get_pid(m: &ProcessManager) -> (r: usize)
    ensures
        r == m.current.0,
{
    m.get_pid().as_usize()
}

/// The live processes, by identifier, for the process listing.
pub fn list_process(m: &ProcessManager) -> (r: Vec<ProcessInfo>)
    requires
        m.wf(),
    ensures
        r@ == live_rows(m.procs@),
{
    m.process_list()
}

/// What the semaphore call leaves: create (0) and remove (1) answer 0 on
/// success and 1 on failure; signal (2) and wait (3) are those calls; any
/// other operation changes nothing and answers `SYSCALL_FAILED`.
pub open spec fn sys_sem_post(
    m0: ProcessManager,
    ctx0: ProcessContext,
    args: SyscallArgs,
    m1: ProcessManager,
    ctx1: ProcessContext,
) -> bool {
    let key = args.arg1 as u32;
    if args.arg0 == 0 {
        exists|r: bool| #[trigger] new_sem_post(m0, key, args.arg2, r, m1)
            && ctx1 == (ProcessContext { rax: if r { 0 } else { 1 }, ..ctx0 })
    } else if args.arg0 == 1 {
        exists|r: bool| #[trigger] remove_sem_post(m0, key, r, m1)
            && ctx1 == (ProcessContext { rax: if r { 0 } else { 1 }, ..ctx0 })
    } else if args.arg0 == 2 {
        exists|r: SemaphoreResult| #[trigger] sem_signal_post(m0, ctx0, key, r, m1, ctx1)
    } else if args.arg0 == 3 {
        exists|r: SemaphoreResult| #[trigger] sem_wait_post(m0, ctx0, key, r, m1, ctx1)
    } else {
        m1 == m0 && ctx1 == (ProcessContext { rax: SYSCALL_FAILED, ..ctx0 })
    }
}

/// What the wait call on the process named by `arg0` leaves; a word that
/// names no process identifier answers `SYSCALL_FAILED`.
pub open spec fn sys_wait_pid_post(
    m0: ProcessManager,
    ctx0: ProcessContext,
    args: SyscallArgs,
    m1: ProcessManager,
    ctx1: ProcessContext,
) -> bool {
    if args.arg0 <= u16::MAX {
        wait_pid_post(m0, ctx0, ProcessId(args.arg0 as u16), m1, ctx1)
    } else {
        m1 == m0 && ctx1 == (ProcessContext { rax: SYSCALL_FAILED, ..ctx0 })
    }
}

/// What the exit call with code `ret` leaves: the current process is
/// killed, then the scheduler switches to the next one.
pub open spec fn exit_post(m0: ProcessManager, ret: isize, m1: ProcessManager, ctx1: ProcessContext) -> bool {
    exists|mid: ProcessManager| mid.wf() && kill_post(m0, m0.current, ret, mid)
        && #[trigger] switch_post(mid, m1.current, m1, ctx1)
}

/// The heap end that the heap call asks for: 0 asks for the current one.
pub open spec fn brk_request(arg: usize) -> Option<u64> {
    if arg == 0 { None } else { Some(arg as u64) }
}

/// The heap call's answer for `brk_post`'s result.
pub open spec fn brk_answer(m0: ProcessManager, new_end: Option<u64>) -> Option<u64> {
    let vm = m0.proc_spec(m0.current).vm;
    if vm.is_none() {
        None
    } else {
        brk_spec(m0.spaces@[vm.unwrap().space as int].heap, new_end, m0.frames.free).2
    }
}

/// What the heap call leaves, answering `w`: the end, or 0 when refused.
pub open spec fn sys_brk_post(m0: ProcessManager, args: SyscallArgs, w: usize, m1: ProcessManager) -> bool {
    let r = brk_answer(m0, brk_request(args.arg0));
    &&& brk_post(m0, brk_request(args.arg0), r, m1)
    &&& w == match r { Some(e) => e as usize, None => 0usize }
}

/// The fork call; see `ProcessManager::sys_fork`.
pub fn sys_fork(m: &mut ProcessManager, context: &mut ProcessContext)
    requires
        old(m).wf(),
    ensures
        final(m).wf(),
        exists|r: Option<ProcessId>| #[trigger] sys_fork_post(*old(m), r, *final(m), *final(context)),
{
    let _ = m.sys_fork(context);
}

/// The semaphore call: `arg0` selects create (0), remove (1), signal (2)
/// or wait (3) on key `arg1`; create takes `arg2` units. Create and remove
/// answer 0 on success and 1 on failure; any other operation answers
/// `SYSCALL_FAILED`.
pub fn sys_sem(m: &mut ProcessManager, args: SyscallArgs, context: &mut ProcessContext)
    requires
        old(m).wf(),
    ensures
        final(m).wf(),
        sys_sem_post(*old(m), *old(context), args, *final(m), *final(context)),
{
    let key = args.arg1 as u32;
    match args.arg0 {
        0 => {
            let ok = m.new_sem(key, args.arg2);
            context.set_rax(if ok { 0 } else { 1 });
        },
        1 => {
            let ok = m.remove_sem(key);
            context.set_rax(if ok { 0 } else { 1 });
        },
        2 => {
            let r = m.sem_signal(key, context);
        },
        3 => {
            let r = m.sem_wait(key, context);
        },
        _ => context.set_rax(SYSCALL_FAILED),
    }
}

/// The wait call on the process named by `arg0`; see `wait_pid_post`.
pub fn sys_wait_pid(m: &mut ProcessManager, args: SyscallArgs, context: &mut ProcessContext)
    requires
        old(m).wf(),
    ensures
        final(m).wf(),
        sys_wait_pid_post(*old(m), *old(context), args, *final(m), *final(context)),
{
    if args.arg0 > u16::MAX as usize {
        context.set_rax(SYSCALL_FAILED);
        return;
    }
    m.wait_pid(ProcessId(args.arg0 as u16), context);
}

/// The exit call with code `arg0`: kills the current process and switches
/// to the next.
pub fn exit_process(m: &mut ProcessManager, args: SyscallArgs, context: &mut ProcessContext)
    requires
        old(m).wf(),
    ensures
        final(m).wf(),
        exit_post(*old(m), args.arg0 as isize, *final(m), *final(context)),
{
    let _ = m.exit(args.arg0 as isize, context);
}

/// The heap call: `arg0` is the new end, or 0 to ask for the current one;
/// answers the end, or 0 when the request is refused.
pub fn sys_brk(m: &mut ProcessManager, args: SyscallArgs) -> (r: usize)
    requires
        old(m).wf(),
    ensures
        final(m).wf(),
        sys_brk_post(*old(m), args, r, *final(m)),
{
    let new_end = if args.arg0 == 0 { None } else { Some(args.arg0 as u64) };
    match m.brk(new_end) {
        Some(end) => end as usize,
        None => 0,
    }
}

/// What the dispatcher did with a call.
#[derive(Clone, Copy, Debug, PartialEq, Eq, Structural)]
pub enum Dispatch {
    /// Served here; the answer is in the caller's return-value register.
    Done,
    /// Served here, and another process may now be running.
    Switched,
    /// A call that needs devices or files, left to the caller.
    Unhandled(Syscall),
    /// A number that names no call; `SYSCALL_FAILED` was answered.
    Rejected,
}

/// Routes a trapped call by number to the process-management service that
/// serves it; calls that need devices or files are handed back.
pub fn dispatch(m: &mut ProcessManager, args: SyscallArgs, context: &mut ProcessContext) -> (r: Dispatch)
    requires
        old(m).wf(),
    ensures
        final(m).wf(),
        syscall_of(args.syscall) == Syscall::Unknown ==> r == Dispatch::Rejected && *final(m) == *old(m)
            && *final(context) == (ProcessContext { rax: SYSCALL_FAILED, ..*old(context) }),
        syscall_of(args.syscall) == Syscall::GetPid ==> r == Dispatch::Done && *final(m) == *old(m)
            && *final(context) == (ProcessContext { rax: old(m).current.0 as u64, ..*old(context) }),
        ({
            let s = syscall_of(args.syscall);
            &&& (s == Syscall::Fork || s == Syscall::Exit || s == Syscall::WaitPid || s == Syscall::Sem)
                ==> r == Dispatch::Switched
            &&& s == Syscall::Fork ==> exists|c: Option<ProcessId>| #[trigger] sys_fork_post(*old(m), c, *final(m), *final(context))
            &&& s == Syscall::Exit ==> exit_post(*old(m), args.arg0 as isize, *final(m), *final(context))
            &&& s == Syscall::WaitPid ==> sys_wait_pid_post(*old(m), *old(context), args, *final(m), *final(context))
            &&& s == Syscall::Sem ==> sys_sem_post(*old(m), *old(context), args, *final(m), *final(context))
            &&& s == Syscall::Brk ==> r == Dispatch::Done && exists|w: usize| #[trigger] sys_brk_post(*old(m), args, w, *final(m))
                && *final(context) == (ProcessContext { rax: w as u64, ..*old(context) })
            &&& (s == Syscall::Read || s == Syscall::Write || s == Syscall::Spawn || s == Syscall::ListApp
                || s == Syscall::Stat || s == Syscall::Allocate || s == Syscall::Deallocate || s == Syscall::Time
                || s == Syscall::ListDir || s == Syscall::OpenFile || s == Syscall::CloseFile)
                ==> r == Dispatch::Unhandled(s) && *final(m) == *old(m) && *final(context) == *old(context)
        }),
{
    let call = Syscall::from_usize(args.syscall);
    match call {
        Syscall::GetPid => {
            let pid = sys_get_pid(m);
            context.set_rax(pid as u64);
            Dispatch::Done
        },
        Syscall::Fork => {
            sys_fork(m, context);
            Dispatch::Switched
        },
        Syscall::Exit => {
            exit_process(m, args, context);
            Dispatch::Switched
        },
        Syscall::WaitPid => {
            sys_wait_pid(m, args, context);
            Dispatch::Switched
        },
        Syscall::Sem => {
            sys_sem(m, args, context);
            Dispatch::Switched
        },
        Syscall::Brk => {
            let end = sys_brk(m, args);
            context.set_rax(end as u64);
            Dispatch::Done
        },
        Syscall::Unknown => {
            context.set_rax(SYSCALL_FAILED);
            Dispatch::Rejected
        },
        _ => Dispatch::Unhandled(call),
    }
}

} // verus!
