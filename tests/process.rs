use ysos_proc::context::ProcessContext;
use ysos_proc::manager::{ProcessManager, SYSCALL_FAILED};
use ysos_proc::memory::{FramePool, Heap, Stack, HEAP_END, HEAP_START, STACK_INIT_BOT, STACK_MAX_SIZE, PAGE_SIZE};
use ysos_proc::process::{ProcessId, ProgramStatus, KERNEL_PID};
use ysos_proc::sem::{SemaphoreResult, SemaphoreSet};
use ysos_proc::vm::ProcessVm;

fn kernel() -> ProcessManager {
    ProcessManager::new("kernel".to_string(), 16, 1000)
}

/// Spawns "sh" and switches to it, as the first timer tick would.
fn running_sh(m: &mut ProcessManager, ctx: &mut ProcessContext) -> ProcessId {
    let sh = m.spawn("sh".to_string(), 0x1000, 4, Some(ProcessId(KERNEL_PID))).unwrap();
    m.save_current(ctx);
    assert_eq!(m.switch_next(ctx), sh);
    sh
}

#[test]
fn scenario_fork_wait_exit_seven() {
    let mut m = kernel();
    let mut ctx = ProcessContext::zeroed();
    assert_eq!(m.get_pid(), ProcessId(1));
    let sh = running_sh(&mut m, &mut ctx);
    assert!(sh.0 > 1);

    let child = m.sys_fork(&mut ctx).unwrap();
    assert_eq!(m.get_pid(), sh);
    assert_eq!(ctx.rax, child.0 as u64);

    m.wait_pid(child, &mut ctx);
    assert_eq!(m.status(sh), Some(ProgramStatus::Blocked));
    assert_eq!(m.get_pid(), child);
    assert_eq!(ctx.rax, 0);

    m.exit(7, &mut ctx);
    assert_eq!(m.get_exit_code(child), Some(7));
    assert_eq!(m.get_pid(), sh);
    assert_eq!(ctx.rax, 7);
    assert_eq!(m.status(sh), Some(ProgramStatus::Running));
}

#[test]
fn fork_return_values() {
    let mut m = kernel();
    let mut ctx = ProcessContext::zeroed();
    let sh = running_sh(&mut m, &mut ctx);
    ctx.rsp = 0x3FFF_FFFF_FF00;
    m.save_current(&ctx);
    let child = m.fork().unwrap();
    assert_eq!(m.saved_rax(child), Some(0));
    assert_eq!(m.saved_rax(sh), Some(child.0 as u64));
    let c = &m.procs[child.0 as usize - 1];
    assert_eq!(c.parent, Some(sh));
    assert_eq!(c.status, ProgramStatus::Ready);
    assert_eq!(m.procs[sh.0 as usize - 1].children, vec![child]);
    // the child's stack sits at the same offset in its own slot
    let slot = 0x4000_0000_0000u64 - child.0 as u64 * STACK_MAX_SIZE;
    assert_eq!(c.context.rsp, slot + 0xFFFF_FF00);
    assert_eq!(c.vm.unwrap().stack.bot, slot + (STACK_INIT_BOT % STACK_MAX_SIZE));
    // the fork is not queued by the manager itself
    assert!(!m.ready_queue.contains(&child));
}

#[test]
fn kill_records_exit_code_once() {
    let mut m = kernel();
    let p = m.spawn("app".to_string(), 0x2000, 1, None).unwrap();
    assert_eq!(m.get_exit_code(p), None);
    m.kill(p, 42);
    assert_eq!(m.get_exit_code(p), Some(42));
    assert_eq!(m.get_exit_code(p), Some(42));
    m.kill(p, 5);
    assert_eq!(m.get_exit_code(p), Some(42));
    assert_eq!(m.status(p), Some(ProgramStatus::Dead));
    assert!(m.procs[p.0 as usize - 1].vm.is_none());
}

#[test]
fn kill_unknown_or_kernel_is_noop() {
    let mut m = kernel();
    m.kill(ProcessId(9), 1);
    m.kill(ProcessId(KERNEL_PID), 1);
    assert_eq!(m.get_exit_code(ProcessId(KERNEL_PID)), None);
    assert_eq!(m.procs.len(), 1);
    assert!(m.still_alive(ProcessId(KERNEL_PID)));
}

#[test]
fn kill_frees_frames_of_last_sharer() {
    let mut m = kernel();
    let before = m.frames.free;
    let p = m.spawn("app".to_string(), 0x2000, 3, None).unwrap();
    assert_eq!(m.frames.free, before - 5);
    m.kill(p, 0);
    assert_eq!(m.frames.free, before);
}

#[test]
fn wait_after_exit_returns_at_once() {
    let mut m = kernel();
    let mut ctx = ProcessContext::zeroed();
    let p = m.spawn("app".to_string(), 0x2000, 1, None).unwrap();
    m.kill(p, 3);
    m.wait_pid(p, &mut ctx);
    assert_eq!(ctx.rax, 3);
    assert_eq!(m.get_pid(), ProcessId(KERNEL_PID));
    assert_eq!(m.status(ProcessId(KERNEL_PID)), Some(ProgramStatus::Running));
    assert!(m.wait_table[p.0 as usize - 1].is_empty());
}

#[test]
fn wait_before_exit_blocks_then_wakes() {
    let mut m = kernel();
    let mut ctx = ProcessContext::zeroed();
    let sh = running_sh(&mut m, &mut ctx);
    let app = m.spawn("app".to_string(), 0x3000, 1, Some(sh)).unwrap();
    m.wait_pid(app, &mut ctx);
    assert_eq!(m.status(sh), Some(ProgramStatus::Blocked));
    assert_eq!(m.get_pid(), app);
    m.kill(app, -2);
    assert_eq!(m.status(sh), Some(ProgramStatus::Ready));
    assert_eq!(m.saved_rax(sh), Some(-2isize as u64));
    assert!(m.ready_queue.contains(&sh));
    assert_eq!(m.switch_next(&mut ctx), sh);
    assert_eq!(ctx.rax, -2isize as u64);
}

#[test]
fn wait_on_unknown_or_self_fails() {
    let mut m = kernel();
    let mut ctx = ProcessContext::zeroed();
    m.wait_pid(ProcessId(77), &mut ctx);
    assert_eq!(ctx.rax, SYSCALL_FAILED);
    let mut ctx2 = ProcessContext::zeroed();
    m.wait_pid(ProcessId(KERNEL_PID), &mut ctx2);
    assert_eq!(ctx2.rax, SYSCALL_FAILED);
}

#[test]
fn switch_skips_dead_and_blocked_entries() {
    let mut m = kernel();
    let a = m.spawn("a".to_string(), 0x1000, 1, None).unwrap();
    let b = m.spawn("b".to_string(), 0x1000, 1, None).unwrap();
    let c = m.spawn("c".to_string(), 0x1000, 1, None).unwrap();
    m.kill(a, 0);
    m.block(b);
    let mut ctx = ProcessContext::zeroed();
    m.save_current(&ctx);
    assert_eq!(m.switch_next(&mut ctx), c);
    assert!(m.ready_queue.is_empty());
    assert_eq!(m.status(c), Some(ProgramStatus::Running));
    assert_eq!(ctx.rip, 0x1000);
}

#[test]
fn switch_falls_back_to_kernel() {
    let mut m = kernel();
    let mut ctx = ProcessContext::zeroed();
    ctx.rbx = 11;
    m.save_current(&ctx);
    assert_eq!(m.status(ProcessId(KERNEL_PID)), Some(ProgramStatus::Ready));
    let mut live = ProcessContext::zeroed();
    assert_eq!(m.switch_next(&mut live), ProcessId(KERNEL_PID));
    assert_eq!(live.rbx, 11);
    assert_eq!(m.status(ProcessId(KERNEL_PID)), Some(ProgramStatus::Running));
    assert_eq!(m.procs[0].ticks_passed, 1);
}

#[test]
fn switch_is_fifo() {
    let mut m = kernel();
    let a = m.spawn("a".to_string(), 0x1000, 1, None).unwrap();
    let b = m.spawn("b".to_string(), 0x2000, 1, None).unwrap();
    let mut ctx = ProcessContext::zeroed();
    m.save_current(&ctx);
    assert_eq!(m.switch_next(&mut ctx), a);
    m.save_current(&ctx);
    m.push_ready(a);
    assert_eq!(m.switch_next(&mut ctx), b);
    assert_eq!(ctx.rip, 0x2000);
    m.save_current(&ctx);
    assert_eq!(m.switch_next(&mut ctx), a);
}

#[test]
fn spawn_needs_frames() {
    let mut m = ProcessManager::new("kernel".to_string(), 0, 5);
    assert_eq!(m.spawn("big".to_string(), 0, 4, None), None);
    assert_eq!(m.procs.len(), 1);
    assert_eq!(m.frames.free, 5);
    assert!(m.spawn("small".to_string(), 0, 3, None).is_some());
    assert_eq!(m.frames.free, 0);
}

#[test]
fn kernel_thread_shares_kernel_space() {
    let mut m = kernel();
    let t = m.spawn_kernel_thread("worker".to_string(), 0xffff_8000_0000_1000).unwrap();
    let p = &m.procs[t.0 as usize - 1];
    assert_eq!(p.vm.unwrap().space, m.procs[0].vm.unwrap().space);
    assert_eq!(m.spaces[0].sharers, 2);
    let top = 0x4000_0000_0000u64 - (t.0 as u64 - 1) * STACK_MAX_SIZE - 8;
    assert_eq!(p.context.rsp, top);
    assert_eq!(p.context.rip, 0xffff_8000_0000_1000);
    m.kill(t, 0);
    assert_eq!(m.spaces[0].sharers, 1);
}

#[test]
fn fork_fails_without_frames() {
    let mut m = ProcessManager::new("kernel".to_string(), 0, 3);
    let mut ctx = ProcessContext::zeroed();
    let sh = running_sh2(&mut m, &mut ctx);
    assert_eq!(m.frames.free, 0);
    assert_eq!(m.fork(), None);
    assert_eq!(m.procs.len(), 2);
    let r = m.sys_fork(&mut ctx);
    assert_eq!(r, None);
    assert_eq!(m.get_pid(), sh);
    assert_eq!(ctx.rax, SYSCALL_FAILED);
}

fn running_sh2(m: &mut ProcessManager, ctx: &mut ProcessContext) -> ProcessId {
    let sh = m.spawn("sh".to_string(), 0x1000, 1, None).unwrap();
    m.save_current(ctx);
    assert_eq!(m.switch_next(ctx), sh);
    sh
}

#[test]
fn heap_brk_query_and_bounds() {
    let mut h = Heap::empty();
    let mut f = FramePool::new(10);
    assert_eq!(h.brk(None, &mut f), Some(HEAP_START));
    assert_eq!(h.end, HEAP_START);
    assert_eq!(h.brk(Some(HEAP_START - 1), &mut f), None);
    assert_eq!(h.brk(Some(HEAP_END + 1), &mut f), None);
    assert_eq!(h.end, HEAP_START);
    assert_eq!(f.free, 10);
}

#[test]
fn heap_grow_then_shrink_leaves_nothing() {
    let mut h = Heap::empty();
    let mut f = FramePool::new(10);
    assert_eq!(h.brk(Some(HEAP_START + 3 * PAGE_SIZE + 1), &mut f), Some(HEAP_START + 3 * PAGE_SIZE + 1));
    assert_eq!(f.free, 6);
    assert_eq!(h.memory_usage(), 3 * PAGE_SIZE + 1);
    assert_eq!(h.brk(Some(HEAP_START), &mut f), Some(HEAP_START));
    assert_eq!(h.memory_usage(), 0);
    assert_eq!(f.free, 10);
}

#[test]
fn heap_growth_needs_frames() {
    let mut h = Heap::empty();
    let mut f = FramePool::new(1);
    assert_eq!(h.brk(Some(HEAP_START + 2 * PAGE_SIZE), &mut f), None);
    assert_eq!(h.end, HEAP_START);
    assert_eq!(f.free, 1);
}

#[test]
fn brk_through_manager_is_shared_with_fork() {
    let mut m = kernel();
    let mut ctx = ProcessContext::zeroed();
    let sh = running_sh(&mut m, &mut ctx);
    assert_eq!(m.brk(Some(HEAP_START + PAGE_SIZE)), Some(HEAP_START + PAGE_SIZE));
    let child = m.fork().unwrap();
    let sp = m.procs[child.0 as usize - 1].vm.unwrap().space;
    assert_eq!(sp, m.procs[sh.0 as usize - 1].vm.unwrap().space);
    assert_eq!(m.spaces[sp].heap.end, HEAP_START + PAGE_SIZE);
    assert_eq!(m.spaces[sp].sharers, 2);
}

#[test]
fn stack_grows_on_fault_within_slot() {
    let mut s = Stack::new(STACK_INIT_BOT, 1);
    let mut f = FramePool::new(8);
    let addr = STACK_INIT_BOT - 2 * PAGE_SIZE + 16;
    assert!(s.handle_page_fault(addr, &mut f));
    assert_eq!(s.bot, STACK_INIT_BOT - 2 * PAGE_SIZE);
    assert_eq!(s.usage, 3);
    assert_eq!(f.free, 6);
    assert_eq!(s.memory_usage(), 3 * PAGE_SIZE);
    // another slot
    assert!(!s.handle_page_fault(STACK_INIT_BOT - STACK_MAX_SIZE, &mut f));
    // already mapped
    assert!(!s.handle_page_fault(STACK_INIT_BOT + 8, &mut f));
    assert_eq!(f.free, 6);
}

#[test]
fn page_fault_router_needs_write_protection_violation() {
    let mut m = kernel();
    let mut ctx = ProcessContext::zeroed();
    let _sh = running_sh(&mut m, &mut ctx);
    let addr = STACK_INIT_BOT - PAGE_SIZE;
    assert!(!m.handle_page_fault(addr, true, false));
    assert!(!m.handle_page_fault(addr, false, true));
    assert!(m.handle_page_fault(addr, true, true));
    let vm: ProcessVm = m.procs[m.get_pid().0 as usize - 1].vm.unwrap();
    assert_eq!(vm.stack.bot, addr);
    assert_eq!(vm.stack.usage, 2);
}

#[test]
fn semaphore_one_unit_then_block_then_wake() {
    let mut t = SemaphoreSet::new();
    let p = ProcessId(3);
    let q = ProcessId(4);
    assert!(t.insert(7, 1));
    assert!(!t.insert(7, 5));
    assert_eq!(t.wait(7, p), SemaphoreResult::Success);
    assert_eq!(t.wait(7, p), SemaphoreResult::Block(p));
    assert_eq!(t.wait(7, q), SemaphoreResult::Block(q));
    assert_eq!(t.signal(7), SemaphoreResult::WakeUp(p));
    assert_eq!(t.signal(7), SemaphoreResult::WakeUp(q));
    assert_eq!(t.signal(7), SemaphoreResult::Success);
    assert_eq!(t.wait(7, q), SemaphoreResult::Success);
    assert!(t.remove(7));
    assert!(!t.remove(7));
    assert_eq!(t.wait(7, p), SemaphoreResult::NotExist);
    assert_eq!(t.signal(7), SemaphoreResult::NotExist);
    assert!(!t.contains(7));
}

#[test]
fn semaphore_syscalls_block_and_wake_processes() {
    let mut m = kernel();
    let mut ctx = ProcessContext::zeroed();
    let sh = running_sh(&mut m, &mut ctx);
    assert!(m.new_sem(1, 1));
    let child = m.fork().unwrap();
    m.push_ready(child);
    assert_eq!(m.sem_wait(1, &mut ctx), SemaphoreResult::Success);
    assert_eq!(ctx.rax, 0);
    assert_eq!(m.sem_wait(1, &mut ctx), SemaphoreResult::Block(sh));
    assert_eq!(m.status(sh), Some(ProgramStatus::Blocked));
    assert_eq!(m.get_pid(), child);
    // the child shares the table, so its signal wakes the parent
    assert_eq!(m.sem_signal(1, &mut ctx), SemaphoreResult::WakeUp(sh));
    assert_eq!(m.status(sh), Some(ProgramStatus::Ready));
    assert_eq!(m.sem_signal(9, &mut ctx), SemaphoreResult::NotExist);
    assert_eq!(ctx.rax, 1);
    assert!(m.remove_sem(1));
    assert!(!m.remove_sem(1));
}

#[test]
fn process_list_shows_live_processes() {
    let mut m = kernel();
    let a = m.spawn("a".to_string(), 0, 1, Some(ProcessId(KERNEL_PID))).unwrap();
    let b = m.spawn("b".to_string(), 0, 1, None).unwrap();
    m.kill(a, 0);
    let rows = m.process_list();
    assert_eq!(rows.len(), 2);
    assert_eq!(rows[0].pid, KERNEL_PID);
    assert_eq!(rows[1].pid, b.0);
    assert_eq!(rows[1].parent, 0);
    assert_eq!(rows[1].memory, PAGE_SIZE);
    assert_eq!(rows[1].status, ProgramStatus::Ready);
}

#[test]
fn context_set_and_restore() {
    let mut saved = ProcessContext::zeroed();
    saved.init_stack_frame(0x400000, 0x7000);
    assert_eq!(saved.rip, 0x400000);
    assert_eq!(saved.rsp, 0x7000);
    assert_eq!(saved.rflags, 0x202);
    saved.set_rax(99);
    let mut live = ProcessContext::zeroed();
    saved.restore(&mut live);
    assert_eq!(live, saved);
    let mut other = ProcessContext::zeroed();
    other.save(&live);
    assert_eq!(other.rax, 99);
}

#[test]
fn names_are_lower_cased_and_inherited() {
    let mut m = kernel();
    let mut ctx = ProcessContext::zeroed();
    let sh = m.spawn("Shell-1".to_string(), 0x1000, 1, None).unwrap();
    assert_eq!(m.procs[sh.0 as usize - 1].name, "shell-1");
    m.save_current(&ctx);
    assert_eq!(m.switch_next(&mut ctx), sh);
    m.save_current(&ctx);
    let child = m.fork().unwrap();
    let c = &m.procs[child.0 as usize - 1];
    assert_eq!(c.name, "shell-1");
    assert_eq!(c.ticks_passed, 0);
    let t = m.spawn_kernel_thread("IDLE".to_string(), 0).unwrap();
    assert_eq!(m.procs[t.0 as usize - 1].name, "idle");
}

#[test]
fn teardown_returns_stack_then_shared_memory() {
    let mut m = kernel();
    let mut ctx = ProcessContext::zeroed();
    let before = m.frames.free;
    let sh = m.spawn("sh".to_string(), 0x1000, 2, None).unwrap();
    m.save_current(&ctx);
    assert_eq!(m.switch_next(&mut ctx), sh);
    assert_eq!(m.brk(Some(HEAP_START + 2 * PAGE_SIZE)), Some(HEAP_START + 2 * PAGE_SIZE));
    m.save_current(&ctx);
    let child = m.fork().unwrap();
    assert_eq!(m.frames.free, before - 4 - 2 - 1);
    // the child is not the last sharer: only its stack page comes back
    m.kill(child, 0);
    assert_eq!(m.frames.free, before - 4 - 2);
    // the parent is: stack, heap, code and table frame come back
    m.kill(sh, 0);
    assert_eq!(m.frames.free, before);
}

#[test]
fn handled_fault_takes_frames_for_new_pages() {
    let mut m = kernel();
    let mut ctx = ProcessContext::zeroed();
    let _sh = running_sh(&mut m, &mut ctx);
    let free = m.frames.free;
    assert!(m.handle_page_fault(STACK_INIT_BOT - 3 * PAGE_SIZE + 5, true, true));
    assert_eq!(m.frames.free, free - 3);
    assert!(!m.handle_page_fault(STACK_INIT_BOT - STACK_MAX_SIZE, true, true));
    assert_eq!(m.frames.free, free - 3);
}
