//! Process-management core of a small single-CPU x86-64 kernel, stated as an
//! executable model: a process registry and FIFO scheduler, per-process stack
//! and heap bookkeeping, saved register contexts, semaphores and the
//! wait-for-exit protocol. Page mapping is modelled by a pool of physical
//! frames; the hardware edges (loading page tables, the trap entry, copying
//! stack bytes) live with the caller.
pub mod context;
pub mod input;
pub mod io;
pub mod manager;
pub mod memory;
pub mod process;
pub mod sem;
pub mod storage;
pub mod sync;
pub mod syscall;
pub mod utils;
pub mod vm;
