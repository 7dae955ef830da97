//! Address-space resources of a process: the physical frames that back
//! mappings, the downward-growing stack and the heap.
use vstd::prelude::*;

verus! {

pub const PAGE_SIZE: u64 = 4096;

/// Top of the user stack region.
pub const STACK_MAX: u64 = 0x4000_0000_0000;
/// Pages in one stack slot: the most a stack may grow to.
pub const STACK_MAX_PAGES: u64 = 0x100000;
/// Bytes in one stack slot (4 GiB); slots are aligned to their size.
pub const STACK_MAX_SIZE: u64 = 0x1_0000_0000;
/// Lowest address of the first page of a fresh user stack.
pub const STACK_INIT_BOT: u64 = STACK_MAX - PAGE_SIZE;
/// Initial stack pointer of a fresh user stack.
pub const STACK_INIT_TOP: u64 = STACK_MAX - 8;

/// Top of the kernel process's stack.
pub const KSTACK_MAX: u64 = 0xffff_ff02_0000_0000;
/// Pages of the kernel process's stack.
pub const KSTACK_DEF_PAGE: u64 = 8;
/// Lowest address of the kernel process's stack.
pub const KSTACK_INIT_BOT: u64 = KSTACK_MAX - KSTACK_DEF_PAGE * PAGE_SIZE;
/// Initial stack pointer of the kernel process.
pub const KSTACK_INIT_TOP: u64 = KSTACK_MAX - 8;

/// Base of every process heap.
pub const HEAP_START: u64 = 0x2000_0000_0000;
/// Pages the heap may span.
pub const HEAP_PAGES: u64 = 0x100000;
/// Highest end address a heap may reach.
pub const HEAP_END: u64 = HEAP_START + HEAP_PAGES * PAGE_SIZE - 8;

/// The largest process identifier: it bounds the number of stack slots.
pub const MAX_PID: u16 = 0x4000;

/// The physical frames not yet handed out to a mapping.
pub struct FramePool {
    pub free: u64,
}

impl FramePool {
    pub fn new(free: u64) -> (r: FramePool)
        ensures
            r.free == free,
    {
        FramePool { free }
    }

    /// Takes `n` frames if that many are free.
    pub fn allocate(&mut self, n: u64) -> (r: bool)
        ensures
            r == (n <= old(self).free),
            final(self).free == if r { (old(self).free - n) as u64 } else { old(self).free },
    {
        if n <= self.free {
            self.free = self.free - n;
            true
        } else {
            false
        }
    }

    /// Gives `n` frames back; the count saturates at its maximum.
    pub fn release(&mut self, n: u64)
        ensures
            final(self).free == saturating_frames(old(self).free, n),
    {
        self.free = self.free.saturating_add(n);
    }
}

/// The slot of the stack of process `pid`: slots are laid out downward
/// from `STACK_MAX`, one per identifier.
pub open spec fn slot_base(pid: u16) -> int {
    STACK_MAX - pid * STACK_MAX_SIZE
}

/// Lowest address of the slot that process `pid`'s stack lives in.
pub fn stack_slot_base(pid: u16) -> (r: u64)
    requires
        1 <= pid <= MAX_PID,
    ensures
        r == slot_base(pid),
        r % STACK_MAX_SIZE == 0,
{
    assert(pid as int * STACK_MAX_SIZE <= STACK_MAX) by (nonlinear_arith)
        requires pid <= MAX_PID;
    assert((STACK_MAX - pid as int * STACK_MAX_SIZE) % STACK_MAX_SIZE as int == 0) by (nonlinear_arith)
        requires pid <= MAX_PID;
    STACK_MAX - pid as u64 * STACK_MAX_SIZE
}

/// The address rounded down to its page.
pub open spec fn page_of(addr: u64) -> int {
    addr - addr % PAGE_SIZE
}

/// A process stack: the mapped pages `[bot, bot + usage * PAGE_SIZE)`,
/// which never leave the 4 GiB slot that holds `bot`.
#[derive(Clone, Copy, Debug, PartialEq, Eq, Structural)]
pub struct Stack {
    pub bot: u64,
    pub usage: u64,
}

impl Stack {
    pub open spec fn wf(&self) -> bool {
        &&& self.bot % PAGE_SIZE == 0
        &&& self.bot % STACK_MAX_SIZE + self.usage * PAGE_SIZE <= STACK_MAX_SIZE
    }

    /// One past the highest mapped byte.
    pub open spec fn top(&self) -> int {
        self.bot + self.usage * PAGE_SIZE
    }

    /// Whether `addr` lies in the slot of this stack.
    pub open spec fn on_stack(&self, addr: u64) -> bool {
        addr / STACK_MAX_SIZE == self.bot / STACK_MAX_SIZE
    }

    /// A stack of `size` pages whose highest page starts at `top_page`.
    pub fn new(top_page: u64, size: u64) -> (r: Stack)
        requires
            top_page % PAGE_SIZE == 0,
            1 <= size,
            (size - 1) * PAGE_SIZE <= top_page % STACK_MAX_SIZE,
            top_page % STACK_MAX_SIZE + PAGE_SIZE <= STACK_MAX_SIZE,
        ensures
            r.wf(),
            r.usage == size,
            r.top() == top_page + PAGE_SIZE,
    {
        assert((size - 1) * PAGE_SIZE <= top_page);
        let bot = top_page - (size - 1) * PAGE_SIZE;
        assert(bot % STACK_MAX_SIZE == top_page % STACK_MAX_SIZE - (size - 1) * PAGE_SIZE);
        assert(bot % PAGE_SIZE == 0) by (nonlinear_arith)
            requires bot == top_page - (size - 1) * PAGE_SIZE, top_page % PAGE_SIZE == 0, size >= 1;
        Stack { bot, usage: size }
    }

    /// A stack with nothing mapped, placed at the top of the user region.
    pub fn empty() -> (r: Stack)
        ensures
            r.wf(),
            r.usage == 0,
            r.bot == STACK_INIT_BOT,
    {
        Stack { bot: STACK_INIT_BOT, usage: 0 }
    }

    /// The kernel process's stack, mapped by the boot loader.
    pub fn kstack() -> (r: Stack)
        ensures
            r.wf(),
            r.bot == KSTACK_INIT_BOT,
            r.usage == KSTACK_DEF_PAGE,
    {
        Stack { bot: KSTACK_INIT_BOT, usage: KSTACK_DEF_PAGE }
    }

    /// Maps the first page of a fresh user stack; false, with nothing
    /// changed, when no frame is free.
    pub fn init(&mut self, frames: &mut FramePool) -> (r: bool)
        ensures
            r == (old(frames).free >= 1),
            final(frames).free == if r { (old(frames).free - 1) as u64 } else { old(frames).free },
            *final(self) == if r { Stack { bot: STACK_INIT_BOT, usage: 1 } } else { *old(self) },
    {
        if frames.allocate(1) {
            self.bot = STACK_INIT_BOT;
            self.usage = 1;
            true
        } else {
            false
        }
    }

    /// Whether `addr` lies in the slot of this stack.
    pub fn is_on_stack(&self, addr: u64) -> (r: bool)
        ensures
            r == self.on_stack(addr),
    {
        addr / STACK_MAX_SIZE == self.bot / STACK_MAX_SIZE
    }

    /// Handles a fault at `addr` by growing the stack down to the page of
    /// `addr`. It does so, and says true, exactly when `addr` is in this
    /// stack's slot, below its lowest mapped page, and enough frames are free.
    pub fn handle_page_fault(&mut self, addr: u64, frames: &mut FramePool) -> (r: bool)
        requires
            old(self).wf(),
        ensures
            final(self).wf(),
            r == (old(self).on_stack(addr) && page_of(addr) < old(self).bot
                && (old(self).bot - page_of(addr)) / PAGE_SIZE as int <= old(frames).free),
            r ==> final(self).bot == page_of(addr) && final(self).top() == old(self).top()
                && final(self).usage == old(self).usage + (old(self).bot - page_of(addr)) / PAGE_SIZE as int
                && final(frames).free == old(frames).free - (old(self).bot - page_of(addr)) / PAGE_SIZE as int,
            !r ==> *final(self) == *old(self) && final(frames).free == old(frames).free,
    {
        if !self.is_on_stack(addr) {
            return false;
        }
        let page = addr - addr % PAGE_SIZE;
        if page >= self.bot {
            return false;
        }
        let diff = self.bot - page;
        assert(diff % PAGE_SIZE == 0) by (nonlinear_arith)
            requires diff == self.bot - page, self.bot % PAGE_SIZE == 0, page == addr - addr % PAGE_SIZE;
        let n = diff / PAGE_SIZE;
        if !frames.allocate(n) {
            return false;
        }
        proof {
            assert(n * PAGE_SIZE == diff);
            assert((addr - addr % 4096) / 0x1_0000_0000 == addr / 0x1_0000_0000) by (bit_vector);
            assert(page % STACK_MAX_SIZE == self.bot % STACK_MAX_SIZE - diff) by (nonlinear_arith)
                requires page / STACK_MAX_SIZE == self.bot / STACK_MAX_SIZE, diff == self.bot - page;
            assert((self.usage + n) * PAGE_SIZE == self.usage * PAGE_SIZE + n * PAGE_SIZE) by (nonlinear_arith);
            assert(page % PAGE_SIZE == 0) by (nonlinear_arith)
                requires page == addr - addr % PAGE_SIZE;
        }
        self.usage = self.usage + n;
        self.bot = page;
        true
    }

    /// Bytes mapped for this stack.
    pub fn memory_usage(&self) -> (r: u64)
        requires
            self.wf(),
        ensures
            r == self.usage * PAGE_SIZE,
    {
        self.usage * PAGE_SIZE
    }

    /// A copy of this stack for a forked child, placed at the same offset in
    /// the slot based at `slot`; None, with nothing taken, when too few
    /// frames are free. The caller copies the bytes.
    pub fn fork(&self, slot: u64, frames: &mut FramePool) -> (r: Option<Stack>)
        requires
            self.wf(),
            slot % STACK_MAX_SIZE == 0,
            slot + STACK_MAX_SIZE <= u64::MAX + 1,
        ensures
            r.is_some() == (self.usage <= old(frames).free),
            r.is_some() ==> r.unwrap().wf() && r.unwrap().usage == self.usage
                && r.unwrap().bot == slot + self.bot % STACK_MAX_SIZE
                && final(frames).free == old(frames).free - self.usage,
            r.is_none() ==> final(frames).free == old(frames).free,
    {
        if !frames.allocate(self.usage) {
            return None;
        }
        let off = self.bot % STACK_MAX_SIZE;
        proof {
            assert((slot + off) % (STACK_MAX_SIZE as int) == off) by (nonlinear_arith)
                requires slot % STACK_MAX_SIZE == 0, off < STACK_MAX_SIZE;
            assert(off % PAGE_SIZE == 0) by (nonlinear_arith)
                requires off == self.bot % STACK_MAX_SIZE, self.bot % PAGE_SIZE == 0;
            assert((slot + off) % (PAGE_SIZE as int) == 0) by (nonlinear_arith)
                requires slot % STACK_MAX_SIZE == 0, off % PAGE_SIZE == 0;
        }
        Some(Stack { bot: slot + off, usage: self.usage })
    }

    /// Unmaps the whole stack and gives its frames back.
    pub fn clean_up(&mut self, frames: &mut FramePool)
        requires
            old(self).wf(),
        ensures
            final(self).wf(),
            final(self).usage == 0,
            final(self).bot == old(self).bot,
            final(frames).free == saturating_frames(old(frames).free, old(self).usage),
    {
        frames.release(self.usage);
        self.usage = 0;
    }
}

/// Pages that back a heap ending at `end`: every page that
/// `[HEAP_START, end)` touches.
pub open spec fn heap_pages(end: u64) -> int {
    (end - HEAP_START + PAGE_SIZE - 1) / PAGE_SIZE as int
}

fn heap_page_count(end: u64) -> (r: u64)
    requires
        HEAP_START <= end <= HEAP_END,
    ensures
        r == heap_pages(end),
        r <= HEAP_PAGES,
{
    let d = end - HEAP_START + PAGE_SIZE - 1;
    assert(d < (HEAP_PAGES + 1) * PAGE_SIZE);
    assert(d / 4096 <= HEAP_PAGES) by (nonlinear_arith)
        requires d < (HEAP_PAGES + 1) * 4096;
    d / PAGE_SIZE
}

/// Free frames after a heap end moves from `from` to `to`: a growth takes
/// the new pages, a shrink gives the dropped ones back.
pub open spec fn frames_after_move(free: u64, from: u64, to: u64) -> int {
    if heap_pages(to) >= heap_pages(from) {
        free - (heap_pages(to) - heap_pages(from))
    } else {
        saturating_frames(free, (heap_pages(from) - heap_pages(to)) as u64)
    }
}

/// A frame count after `n` frames come back.
pub open spec fn saturating_frames(free: u64, n: u64) -> int {
    if free + n <= u64::MAX { free + n } else { u64::MAX as int }
}

/// The heap, the free frame count and the answer after `brk(new_end)`.
pub open spec fn brk_spec(h: Heap, new_end: Option<u64>, free: u64) -> (Heap, int, Option<u64>) {
    match new_end {
        None => (h, free as int, Some(h.end)),
        Some(x) => if HEAP_START <= x <= HEAP_END && h.can_move_to(x, free) {
            (Heap { end: x, ..h }, frames_after_move(free, h.end, x), Some(x))
        } else {
            (h, free as int, None)
        },
    }
}

/// A process heap: the range `[base, end)`, always based at `HEAP_START`.
#[derive(Clone, Copy, Debug, PartialEq, Eq, Structural)]
pub struct Heap {
    pub base: u64,
    pub end: u64,
}

impl Heap {
    pub open spec fn wf(&self) -> bool {
        &&& self.base == HEAP_START
        &&& HEAP_START <= self.end <= HEAP_END
    }

    /// Whether moving the end to `new_end` finds the frames it needs.
    pub open spec fn can_move_to(&self, new_end: u64, free: u64) -> bool {
        heap_pages(new_end) <= heap_pages(self.end) || heap_pages(new_end) - heap_pages(self.end) <= free
    }

    /// A heap with nothing in it.
    pub fn empty() -> (r: Heap)
        ensures
            r.wf(),
            r.end == HEAP_START,
    {
        Heap { base: HEAP_START, end: HEAP_START }
    }

    /// Moves or reports the end of the heap. `None` asks for the current end
    /// and changes nothing. `Some(x)` outside `[HEAP_START, HEAP_END]`, or a
    /// growth for which too few frames are free, gives `None` and changes
    /// nothing; otherwise the pages that `[HEAP_START, x)` touches are mapped,
    /// the others unmapped, and the new end is returned.
    pub fn brk(&mut self, new_end: Option<u64>, frames: &mut FramePool) -> (r: Option<u64>)
        requires
            old(self).wf(),
        ensures
            final(self).wf(),
            (*final(self), final(frames).free as int, r) == brk_spec(*old(self), new_end, old(frames).free),
    {
        match new_end {
            None => Some(self.end),
            Some(x) => {
                if x < HEAP_START || x > HEAP_END {
                    return None;
                }
                let cur = heap_page_count(self.end);
                let want = heap_page_count(x);
                if want > cur {
                    if !frames.allocate(want - cur) {
                        return None;
                    }
                } else if want < cur {
                    frames.release(cur - want);
                }
                self.end = x;
                Some(x)
            },
        }
    }

    /// Bytes between the base and the end.
    pub fn memory_usage(&self) -> (r: u64)
        requires
            self.wf(),
        ensures
            r == self.end - self.base,
    {
        self.end - self.base
    }

    /// Unmaps the whole heap, gives its frames back and resets the end to
    /// the base.
    pub fn clean_up(&mut self, frames: &mut FramePool)
        requires
            old(self).wf(),
        ensures
            final(self).wf(),
            final(self).end == HEAP_START,
            final(frames).free == saturating_frames(old(frames).free, heap_pages(old(self).end) as u64),
    {
        let n = heap_page_count(self.end);
        frames.release(n);
        self.end = self.base;
    }
}

/// Growing an empty heap to any end and then shrinking it back to its base
/// succeeds both times, leaves it empty again and returns every frame taken.
pub proof fn lemma_brk_grow_then_shrink(h: Heap, x: u64, free: u64)
    requires
        h.wf(),
        h.end == HEAP_START,
        HEAP_START <= x <= HEAP_END,
        h.can_move_to(x, free),
    ensures
        ({
            let (h1, f1, r1) = brk_spec(h, Some(x), free);
            let (h2, f2, r2) = brk_spec(h1, Some(HEAP_START), f1 as u64);
            &&& r1 == Some(x)
            &&& r2 == Some(HEAP_START)
            &&& h2.end - h2.base == 0
            &&& f2 == free
        }),
{
    let (h1, f1, r1) = brk_spec(h, Some(x), free);
    assert(heap_pages(HEAP_START) == 0);
    assert(0 <= f1 <= free);
}

} // verus!
