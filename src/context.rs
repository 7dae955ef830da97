//! Saved CPU register state of a process.
use vstd::prelude::*;

verus! {

/// Interrupt-enable flag plus the always-set reserved bit of RFLAGS.
pub const RFLAGS_INIT: u64 = 0x202;
/// Code segment selector of user mode.
pub const USER_CODE_SELECTOR: u64 = 0x2b;
/// Stack segment selector of user mode.
pub const USER_DATA_SELECTOR: u64 = 0x23;

/// The general-purpose registers and the interrupt-return frame of a process.
#[derive(Clone, Copy, Debug, PartialEq, Eq, Structural)]
pub struct ProcessContext {
    pub rax: u64,
    pub rbx: u64,
    pub rcx: u64,
    pub rdx: u64,
    pub rsi: u64,
    pub rdi: u64,
    pub rbp: u64,
    pub r8: u64,
    pub r9: u64,
    pub r10: u64,
    pub r11: u64,
    pub r12: u64,
    pub r13: u64,
    pub r14: u64,
    pub r15: u64,
    pub rip: u64,
    pub cs: u64,
    pub rflags: u64,
    pub rsp: u64,
    pub ss: u64,
}

impl ProcessContext {
    /// A context with every register zero.
    pub fn zeroed() -> (r: ProcessContext)
        ensures
            r.rax == 0 && r.rip == 0 && r.rsp == 0 && r.rflags == 0,
            r == ProcessContext::zero_spec(),
    {
        ProcessContext {
            rax: 0, rbx: 0, rcx: 0, rdx: 0, rsi: 0, rdi: 0, rbp: 0,
            r8: 0, r9: 0, r10: 0, r11: 0, r12: 0, r13: 0, r14: 0, r15: 0,
            rip: 0, cs: 0, rflags: 0, rsp: 0, ss: 0,
        }
    }

    pub open spec fn zero_spec() -> ProcessContext {
        ProcessContext {
            rax: 0, rbx: 0, rcx: 0, rdx: 0, rsi: 0, rdi: 0, rbp: 0,
            r8: 0, r9: 0, r10: 0, r11: 0, r12: 0, r13: 0, r14: 0, r15: 0,
            rip: 0, cs: 0, rflags: 0, rsp: 0, ss: 0,
        }
    }

    /// The frame a process that has never run starts from.
    pub open spec fn fresh_spec(entry: u64, stack_top: u64) -> ProcessContext {
        ProcessContext {
            rip: entry,
            rsp: stack_top,
            rflags: RFLAGS_INIT,
            cs: USER_CODE_SELECTOR,
            ss: USER_DATA_SELECTOR,
            ..ProcessContext::zero_spec()
        }
    }

    /// Copies the live registers into this saved context.
    pub fn save(&mut self, live: &ProcessContext)
        ensures
            *final(self) == *live,
    {
        *self = *live;
    }

    /// Copies this saved context into the live registers.
    pub fn restore(&self, live: &mut ProcessContext)
        ensures
            *final(live) == *self,
    {
        *live = *self;
    }

    /// Sets the register that carries a system call's return value.
    pub fn set_rax(&mut self, value: u64)
        ensures
            *final(self) == (ProcessContext { rax: value, ..*old(self) }),
    {
        self.rax = value;
    }

    /// Moves the saved stack pointer.
    pub fn update_rsp(&mut self, rsp: u64)
        ensures
            *final(self) == (ProcessContext { rsp: rsp, ..*old(self) }),
    {
        self.rsp = rsp;
    }

    /// Resets the context so that the process starts at `entry` with its stack
    /// pointer at `stack_top`, interrupts enabled.
    pub fn init_stack_frame(&mut self, entry: u64, stack_top: u64)
        ensures
            *final(self) == ProcessContext::fresh_spec(entry, stack_top),
    {
        let z = ProcessContext::zeroed();
        *self = ProcessContext {
            rip: entry,
            rsp: stack_top,
            rflags: RFLAGS_INIT,
            cs: USER_CODE_SELECTOR,
            ss: USER_DATA_SELECTOR,
            ..z
        };
    }
}

} // verus!
