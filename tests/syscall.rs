use ysos_proc::context::ProcessContext;
use ysos_proc::manager::{ProcessManager, SYSCALL_FAILED};
use ysos_proc::memory::HEAP_START;
use ysos_proc::process::{ProcessId, ProgramStatus, KERNEL_PID};
use ysos_proc::sync::{Semaphore, SpinLock};
use ysos_proc::sem::SemaphoreResult;
use ysos_proc::syscall::{dispatch, list_process, sys_get_pid, sys_sem, Dispatch, Syscall, SyscallArgs};
use ysos_proc::utils::{get_ascii_header, grow_stack};
use ysos_proc::vm::code_pages;

fn args(syscall: usize, arg0: usize, arg1: usize, arg2: usize) -> SyscallArgs {
    SyscallArgs { syscall, arg0, arg1, arg2 }
}

fn with_sh() -> (ProcessManager, ProcessContext, ProcessId) {
    let mut m = ProcessManager::new("kernel".to_string(), 16, 1000);
    let mut ctx = ProcessContext::zeroed();
    let sh = m.spawn("sh".to_string(), 0x1000, 2, Some(ProcessId(KERNEL_PID))).unwrap();
    m.save_current(&ctx);
    assert_eq!(m.switch_next(&mut ctx), sh);
    (m, ctx, sh)
}

#[test]
fn syscall_numbers() {
    assert_eq!(Syscall::from_usize(39), Syscall::GetPid);
    assert_eq!(Syscall::from_usize(58), Syscall::Fork);
    assert_eq!(Syscall::from_usize(64), Syscall::WaitPid);
    assert_eq!(Syscall::from_usize(65531), Syscall::ListApp);
    assert_eq!(Syscall::from_usize(2), Syscall::Unknown);
    assert_eq!(Syscall::Sem.number(), 41);
    assert_eq!(Syscall::Brk.number(), 45);
    assert_eq!(Syscall::Unknown.number(), 65535);
}

#[test]
fn dispatch_get_pid_and_unknown() {
    let (mut m, mut ctx, sh) = with_sh();
    assert_eq!(sys_get_pid(&m), sh.0 as usize);
    assert_eq!(dispatch(&mut m, args(39, 0, 0, 0), &mut ctx), Dispatch::Done);
    assert_eq!(ctx.rax, sh.0 as u64);
    assert_eq!(dispatch(&mut m, args(12345, 0, 0, 0), &mut ctx), Dispatch::Rejected);
    assert_eq!(ctx.rax, SYSCALL_FAILED);
    assert_eq!(dispatch(&mut m, args(1, 0, 0, 0), &mut ctx), Dispatch::Unhandled(Syscall::Write));
}

#[test]
fn dispatch_fork_wait_exit() {
    let (mut m, mut ctx, sh) = with_sh();
    assert_eq!(dispatch(&mut m, args(58, 0, 0, 0), &mut ctx), Dispatch::Switched);
    let child = ProcessId(ctx.rax as u16);
    assert_eq!(m.get_pid(), sh);
    dispatch(&mut m, args(64, child.0 as usize, 0, 0), &mut ctx);
    assert_eq!(m.get_pid(), child);
    dispatch(&mut m, args(60, 9, 0, 0), &mut ctx);
    assert_eq!(m.get_pid(), sh);
    assert_eq!(ctx.rax, 9);
    assert_eq!(m.status(child), Some(ProgramStatus::Dead));
}

#[test]
fn dispatch_brk() {
    let (mut m, mut ctx, _sh) = with_sh();
    dispatch(&mut m, args(45, 0, 0, 0), &mut ctx);
    assert_eq!(ctx.rax, HEAP_START);
    dispatch(&mut m, args(45, (HEAP_START + 0x2000) as usize, 0, 0), &mut ctx);
    assert_eq!(ctx.rax, HEAP_START + 0x2000);
    dispatch(&mut m, args(45, 5, 0, 0), &mut ctx);
    assert_eq!(ctx.rax, 0);
}

#[test]
fn sem_syscall_operations() {
    let (mut m, mut ctx, sh) = with_sh();
    sys_sem(&mut m, args(41, 0, 3, 1), &mut ctx);
    assert_eq!(ctx.rax, 0);
    sys_sem(&mut m, args(41, 0, 3, 1), &mut ctx);
    assert_eq!(ctx.rax, 1);
    sys_sem(&mut m, args(41, 3, 3, 0), &mut ctx);
    assert_eq!(ctx.rax, 0);
    sys_sem(&mut m, args(41, 2, 3, 0), &mut ctx);
    assert_eq!(ctx.rax, 0);
    sys_sem(&mut m, args(41, 1, 3, 0), &mut ctx);
    assert_eq!(ctx.rax, 0);
    sys_sem(&mut m, args(41, 3, 3, 0), &mut ctx);
    assert_eq!(ctx.rax, 1);
    sys_sem(&mut m, args(41, 7, 3, 0), &mut ctx);
    assert_eq!(ctx.rax, SYSCALL_FAILED);
    assert_eq!(m.get_pid(), sh);
}

#[test]
fn semaphore_handle() {
    let (mut m, mut ctx, sh) = with_sh();
    let sem = Semaphore::new(5);
    assert!(sem.init(&mut m, 1));
    assert!(!sem.init(&mut m, 1));
    assert_eq!(sem.wait(&mut m, &mut ctx), SemaphoreResult::Success);
    assert_eq!(sem.signal(&mut m, &mut ctx), SemaphoreResult::Success);
    assert_eq!(sem.wait(&mut m, &mut ctx), SemaphoreResult::Success);
    assert_eq!(sem.wait(&mut m, &mut ctx), SemaphoreResult::Block(sh));
    assert_eq!(m.get_pid(), ProcessId(KERNEL_PID));
    assert!(!Semaphore::new(6).remove(&mut m));
}

#[test]
fn spin_lock() {
    let mut l = SpinLock::new();
    assert!(!l.is_locked());
    l.acquire();
    assert!(l.is_locked());
    l.release();
    assert!(!l.is_locked());
}

#[test]
fn image_page_count() {
    assert_eq!(code_pages(&vec![]), Some(0));
    assert_eq!(code_pages(&vec![(0x1000, 0x1000)]), Some(1));
    assert_eq!(code_pages(&vec![(0x1ff0, 0x20), (0x5000, 0)]), Some(2));
    assert_eq!(code_pages(&vec![(0x1000, 0x3001), (0x8000, 0x10)]), Some(5));
    assert_eq!(code_pages(&vec![(u64::MAX, 2)]), None);
}

#[test]
fn spawn_elf_maps_segment_pages() {
    let mut m = ProcessManager::new("kernel".to_string(), 16, 100);
    let pid = m.spawn_elf("app".to_string(), 0x40_1000, &vec![(0x40_0000, 0x2500)], None).unwrap();
    assert_eq!(m.spaces.last().unwrap().code_pages, 3);
    assert_eq!(m.frames.free, 95);
    assert_eq!(m.procs[pid.0 as usize - 1].context.rip, 0x40_1000);
    assert_eq!(m.spawn_elf("bad".to_string(), 0, &vec![(u64::MAX, 8)], None), None);
    assert_eq!(m.procs.len(), 2);
}

#[test]
fn listing_and_utilities() {
    let (m, _ctx, sh) = with_sh();
    let rows = list_process(&m);
    assert_eq!(rows.len(), 2);
    assert_eq!(rows[1].pid, sh.0);
    assert_eq!(rows[1].parent, KERNEL_PID);
    assert_eq!(rows[1].status, ProgramStatus::Running);
    assert!(get_ascii_header().contains("v0.1.0"));
    assert!(grow_stack());
}
