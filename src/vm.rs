//! Per-process virtual memory: which address space a process runs in and
//! its own stack. Address spaces are shared by reference count between a
//! process and its forked children, and among kernel threads.
use vstd::prelude::*;
use crate::memory::{
    FramePool, Heap, Stack, slot_base, stack_slot_base, PAGE_SIZE, STACK_MAX_SIZE, MAX_PID,
};
use crate::process::ProcessId;

verus! {

/// One page table and what hangs off it: the heap its sharers grow
/// together, the pages of loaded code, and how many processes use it.
#[derive(Clone, Copy, Debug, PartialEq, Eq, Structural)]
pub struct AddressSpace {
    pub sharers: u64,
    pub heap: Heap,
    pub code_pages: u64,
}

impl AddressSpace {
    pub open spec fn wf(&self) -> bool {
        self.heap.wf()
    }

    /// A fresh address space with one sharer, an empty heap and `code_pages`
    /// pages of loaded code.
    pub fn new(code_pages: u64) -> (r: AddressSpace)
        ensures
            r.wf(),
            r.sharers == 1,
            r.heap.end == crate::memory::HEAP_START,
            r.code_pages == code_pages,
    {
        AddressSpace { sharers: 1, heap: Heap::empty(), code_pages }
    }
}

/// The memory of one process: the index of its address space in the
/// manager's table, and its stack.
#[derive(Clone, Copy, Debug, PartialEq, Eq, Structural)]
pub struct ProcessVm {
    pub space: usize,
    pub stack: Stack,
}

/// The stack a process `pid` starts with when it shares a page table with
/// others: the top page of its own slot.
pub open spec fn proc_stack_spec(pid: u16) -> Stack {
    Stack { bot: (slot_base(pid) + STACK_MAX_SIZE - PAGE_SIZE) as u64, usage: 1 }
}

/// The initial stack pointer in the slot of process `pid`.
pub open spec fn proc_stack_top(pid: u16) -> int {
    slot_base(pid) + STACK_MAX_SIZE - 8
}

impl ProcessVm {
    /// Maps the first page of the stack slot of `pid` and makes it this
    /// process's stack; returns the initial stack pointer, or None, with
    /// nothing changed, when no frame is free.
    pub fn init_proc_stack(&mut self, pid: ProcessId, frames: &mut FramePool) -> (r: Option<u64>)
        requires
            1 <= pid.0 <= MAX_PID,
        ensures
            r.is_some() == (old(frames).free >= 1),
            r.is_some() ==> {
                &&& r.unwrap() == proc_stack_top(pid.0)
                &&& *final(self) == (ProcessVm { stack: proc_stack_spec(pid.0), ..*old(self) })
                &&& final(self).stack.wf()
                &&& final(frames).free == old(frames).free - 1
            },
            r.is_none() ==> *final(self) == *old(self) && *final(frames) == *old(frames),
    {
        if !frames.allocate(1) {
            return None;
        }
        let base = stack_slot_base(pid.0);
        assert((base + STACK_MAX_SIZE - PAGE_SIZE) % (STACK_MAX_SIZE as int) == STACK_MAX_SIZE - PAGE_SIZE)
            by (nonlinear_arith) requires base % STACK_MAX_SIZE == 0;
        assert((base + STACK_MAX_SIZE - PAGE_SIZE) % (PAGE_SIZE as int) == 0)
            by (nonlinear_arith) requires base % STACK_MAX_SIZE == 0;
        self.stack = Stack { bot: base + (STACK_MAX_SIZE - PAGE_SIZE), usage: 1 };
        Some(base + (STACK_MAX_SIZE - 8))
    }

    /// Bytes of stack this process has mapped.
    pub fn memory_usage(&self) -> (r: u64)
        requires
            self.stack.wf(),
        ensures
            r == self.stack.usage * PAGE_SIZE,
    {
        self.stack.memory_usage()
    }
}

/// The per-process data: the index of the semaphore table it shares with
/// its forked family.
#[derive(Clone, Copy, Debug, PartialEq, Eq, Structural)]
pub struct ProcessData {
    pub sems: usize,
}

/// Pages that a loadable segment of `mem_size` bytes at `vaddr` touches;
/// None when the segment runs past the end of the address space.
pub open spec fn segment_pages(vaddr: u64, mem_size: u64) -> Option<int> {
    if mem_size == 0 {
        Some(0)
    } else if vaddr + mem_size > u64::MAX + 1 {
        None
    } else {
        Some((vaddr + mem_size - 1) / (PAGE_SIZE as int) - (vaddr as int) / (PAGE_SIZE as int) + 1)
    }
}

/// The pages that the loadable segments `(vaddr, mem_size)` of an image
/// touch, summed; None when a segment is invalid.
pub open spec fn image_pages(segs: Seq<(u64, u64)>) -> Option<int>
    decreases segs.len(),
{
    if segs.len() == 0 {
        Some(0)
    } else {
        match (image_pages(segs.drop_last()), segment_pages(segs.last().0, segs.last().1)) {
            (Some(a), Some(b)) => Some(a + b),
            _ => None,
        }
    }
}

/// The number of pages to map for an image's loadable segments; None when
/// a segment is invalid or the sum does not fit a word.
pub fn code_pages(segments: &Vec<(u64, u64)>) -> (r: Option<u64>)
    ensures
        r.is_some() == (image_pages(segments@).is_some() && image_pages(segments@).unwrap() <= u64::MAX),
        r.is_some() ==> r.unwrap() == image_pages(segments@).unwrap(),
{
    let mut total: u64 = 0;
    let mut i: usize = 0;
    while i < segments.len()
        invariant
            i <= segments@.len(),
            image_pages(segments@.take(i as int)) == Some(total as int),
        decreases segments@.len() - i,
    {
        proof {
            assert(segments@.take(i as int + 1).drop_last() =~= segments@.take(i as int));
        }
        let (vaddr, size) = segments[i];
        if size > 0 {
            if vaddr > u64::MAX - (size - 1) {
                proof {
                    lemma_image_pages_none(segments@, i as int + 1);
                }
                return None;
            }
            let n = (vaddr + (size - 1)) / PAGE_SIZE - vaddr / PAGE_SIZE + 1;
            if total > u64::MAX - n {
                proof {
                    lemma_image_pages_grows(segments@, i as int + 1);
                }
                return None;
            }
            total = total + n;
        }
        i = i + 1;
    }
    proof {
        assert(segments@.take(segments@.len() as int) =~= segments@);
    }
    Some(total)
}

/// Once a prefix has no page count, neither has the whole.
proof fn lemma_image_pages_none(s: Seq<(u64, u64)>, k: int)
    requires
        0 <= k <= s.len(),
        image_pages(s.take(k)).is_none(),
    ensures
        image_pages(s).is_none(),
    decreases s.len() - k,
{
    if k < s.len() {
        assert(s.take(k + 1).drop_last() =~= s.take(k));
        lemma_image_pages_none(s, k + 1);
    } else {
        assert(s.take(k) =~= s);
    }
}

/// The page count of a prefix bounds that of the whole.
proof fn lemma_image_pages_grows(s: Seq<(u64, u64)>, k: int)
    requires
        0 <= k <= s.len(),
        image_pages(s.take(k)).is_some(),
        image_pages(s.take(k)).unwrap() > u64::MAX,
    ensures
        image_pages(s).is_none() || image_pages(s).unwrap() > u64::MAX,
    decreases s.len() - k,
{
    if k < s.len() {
        let t = s.take(k + 1);
        assert(t.drop_last() =~= s.take(k));
        let (v, m) = t.last();
        if m > 0 && v + m <= u64::MAX + 1 {
            assert((v + m - 1) / (PAGE_SIZE as int) >= (v as int) / (PAGE_SIZE as int)) by (nonlinear_arith)
                requires m > 0;
        }
        if image_pages(t).is_none() {
            lemma_image_pages_none(s, k + 1);
        } else {
            lemma_image_pages_grows(s, k + 1);
        }
    } else {
        assert(s.take(k) =~= s);
    }
}

} // verus!
