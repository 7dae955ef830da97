//! The keyboard input buffer: a bounded FIFO of raw key bytes filled by the
//! keyboard interrupt, and the decoding of UTF-8 sequences read from it.
use vstd::prelude::*;
use crossbeam_queue::ArrayQueue;

verus! {

#[verifier::external_type_specification]
#[verifier::external_body]
#[verifier::reject_recursive_types(T)]
pub struct ExArrayQueue<T>(ArrayQueue<T>);

/// The bytes held by a queue, oldest first.
pub uninterp spec fn key_queue_items(q: ArrayQueue<u8>) -> Seq<u8>;

/// The capacity a queue was made with.
pub uninterp spec fn key_queue_capacity(q: ArrayQueue<u8>) -> nat;

/// Relies on ArrayQueue::new: an empty queue of capacity `cap`; it panics
/// on a zero capacity or one whose next power of two overflows.
#[verifier::external_body]
fn new_key_queue(cap: usize) -> (r: ArrayQueue<u8>)
    requires
        0 < cap <= 0x10000,
    ensures
        key_queue_items(r) == Seq::<u8>::empty(),
        key_queue_capacity(r) == cap,
{
    ArrayQueue::new(cap)
}

/// Relies on ArrayQueue::push_mut: appends the byte unless the queue is
/// full, in which case the byte comes back as the error.
#[verifier::external_body]
fn push_key_queue(q: &mut ArrayQueue<u8>, key: u8) -> (r: Result<(), u8>)
    ensures
        key_queue_capacity(*final(q)) == key_queue_capacity(*old(q)),
        key_queue_items(*old(q)).len() < key_queue_capacity(*old(q)) ==> {
            &&& r is Ok
            &&& key_queue_items(*final(q)) == key_queue_items(*old(q)).push(key)
        },
        key_queue_items(*old(q)).len() >= key_queue_capacity(*old(q)) ==> {
            &&& r == Err::<(), u8>(key)
            &&& key_queue_items(*final(q)) == key_queue_items(*old(q))
        },
{
    q.push_mut(key)
}

/// Relies on ArrayQueue::pop_mut: removes and returns the oldest byte, or
/// None when the queue is empty.
#[verifier::external_body]
fn pop_key_queue(q: &mut ArrayQueue<u8>) -> (r: Option<u8>)
    ensures
        key_queue_capacity(*final(q)) == key_queue_capacity(*old(q)),
        key_queue_items(*old(q)).len() == 0 ==> r.is_none() && key_queue_items(*final(q)) == key_queue_items(*old(q)),
        key_queue_items(*old(q)).len() > 0 ==> {
            &&& r == Some(key_queue_items(*old(q))[0])
            &&& key_queue_items(*final(q)) == key_queue_items(*old(q)).drop_first()
        },
{
    q.pop_mut()
}

/// How many key bytes the buffer holds before dropping new ones.
pub const INPUT_BUF_SIZE: usize = 128;

/// The key bytes typed and not yet read.
pub struct InputBuffer {
    queue: ArrayQueue<u8>,
    count: usize,
}

impl View for InputBuffer {
    type V = Seq<u8>;

    closed spec fn view(&self) -> Seq<u8> {
        key_queue_items(self.queue)
    }
}

impl InputBuffer {
    pub closed spec fn wf(&self) -> bool {
        &&& key_queue_capacity(self.queue) == INPUT_BUF_SIZE
        &&& key_queue_items(self.queue).len() <= INPUT_BUF_SIZE
        &&& self.count == key_queue_items(self.queue).len()
    }

    pub fn new() -> (r: InputBuffer)
        ensures
            r.wf(),
            r@ == Seq::<u8>::empty(),
    {
        InputBuffer { queue: new_key_queue(INPUT_BUF_SIZE), count: 0 }
    }

    /// How many keys are waiting.
    pub fn len(&self) -> (r: usize)
        requires
            self.wf(),
        ensures
            r == self@.len(),
    {
        self.count
    }
}

/// Queues a typed key; when the buffer is full the key is dropped.
pub fn push_key(buf: &mut InputBuffer, key: u8)
    requires
        old(buf).wf(),
    ensures
        final(buf).wf(),
        final(buf)@ == if old(buf)@.len() < INPUT_BUF_SIZE { old(buf)@.push(key) } else { old(buf)@ },
{
    if push_key_queue(&mut buf.queue, key).is_ok() {
        buf.count = buf.count + 1;
    }
}

/// The oldest waiting key, if any.
pub fn try_pop_key(buf: &mut InputBuffer) -> (r: Option<u8>)
    requires
        old(buf).wf(),
    ensures
        final(buf).wf(),
        old(buf)@.len() == 0 ==> r.is_none() && final(buf)@ == old(buf)@,
        old(buf)@.len() > 0 ==> r == Some(old(buf)@[0]) && final(buf)@ == old(buf)@.drop_first(),
{
    let r = pop_key_queue(&mut buf.queue);
    if r.is_some() {
        buf.count = buf.count - 1;
    }
    r
}

/// The oldest waiting key. The caller makes sure one is waiting: with an
/// empty buffer there is nothing to return until the next interrupt.
pub fn pop_key(buf: &mut InputBuffer) -> (r: u8)
    requires
        old(buf).wf(),
        old(buf)@.len() > 0,
    ensures
        final(buf).wf(),
        r == old(buf)@[0],
        final(buf)@ == old(buf)@.drop_first(),
{
    try_pop_key(buf).unwrap()
}

/// The replacement character, for input that is not valid UTF-8.
pub const REPLACEMENT: u32 = 0xFFFD;

/// Whether `ch` can start a UTF-8 sequence of one to four bytes.
pub open spec fn is_lead(ch: u8) -> bool {
    ch < 0x80 || (0xC0 <= ch < 0xF8)
}

/// How many continuation bytes follow the lead byte `ch`.
pub open spec fn trailing_count(ch: u8) -> nat {
    if 0xC0 <= ch < 0xE0 {
        1
    } else if 0xE0 <= ch < 0xF0 {
        2
    } else if 0xF0 <= ch < 0xF8 {
        3
    } else {
        0
    }
}

/// The payload bits of the lead byte `ch`.
pub open spec fn lead_bits(ch: u8) -> int {
    if 0xC0 <= ch < 0xE0 {
        ch - 0xC0
    } else if 0xE0 <= ch < 0xF0 {
        ch - 0xE0
    } else {
        ch - 0xF0
    }
}

/// The smallest code point that needs `n` continuation bytes.
pub open spec fn min_code(n: nat) -> int {
    if n == 1 {
        0x80
    } else if n == 2 {
        0x800
    } else {
        0x10000
    }
}

/// Whether `b` is a continuation byte (10xxxxxx).
pub open spec fn is_cont(b: u8) -> bool {
    0x80 <= b < 0xC0
}

/// The position of the first byte of `s` that is not a continuation byte,
/// or `s.len()`.
pub open spec fn first_bad(s: Seq<u8>) -> nat
    decreases s.len(),
{
    if s.len() == 0 || !is_cont(s[0]) {
        0
    } else {
        1 + first_bad(s.drop_first())
    }
}

/// The lead payload followed by the payloads of the first `k` bytes of `ts`,
/// six bits each.
pub open spec fn fold_payloads(lead: int, ts: Seq<u8>, k: nat) -> int
    decreases k,
{
    if k == 0 {
        lead
    } else {
        fold_payloads(lead, ts, (k - 1) as nat) * 64 + (ts[k - 1] - 0x80)
    }
}

/// The code point that the lead byte `ch` and the bytes `ts` after it
/// decode to, and how many of those bytes are read: the continuation bytes
/// up to and including the first that is not one. Invalid lead bytes,
/// broken or overlong sequences, surrogates and values past U+10FFFF give
/// the replacement character.
pub open spec fn decode_utf8(ch: u8, ts: Seq<u8>) -> (u32, nat) {
    if ch < 0x80 {
        (ch as u32, 0)
    } else if !is_lead(ch) {
        (REPLACEMENT, 0)
    } else {
        let n = trailing_count(ch);
        let b = first_bad(ts.take(n as int));
        if b < n {
            (REPLACEMENT, b + 1)
        } else {
            let v = fold_payloads(lead_bits(ch), ts, n);
            if v > 0x10FFFF || (0xD800 <= v <= 0xDFFF) || v < min_code(n) {
                (REPLACEMENT, n)
            } else {
                (v as u32, n)
            }
        }
    }
}

proof fn lemma_first_bad(s: Seq<u8>)
    ensures
        first_bad(s) <= s.len(),
        forall|j: int| 0 <= j < first_bad(s) ==> is_cont(#[trigger] s[j]),
        first_bad(s) < s.len() ==> !is_cont(s[first_bad(s) as int]),
    decreases s.len(),
{
    if s.len() > 0 && is_cont(s[0]) {
        lemma_first_bad(s.drop_first());
        assert forall|j: int| 0 <= j < first_bad(s) implies is_cont(#[trigger] s[j]) by {
            if j > 0 {
                assert(s[j] == s.drop_first()[j - 1]);
            }
        }
    }
}

/// How many continuation bytes follow the lead byte `ch`.
pub fn trailing_count_of(ch: u8) -> (r: usize)
    ensures
        r == trailing_count(ch),
{
    if 0xC0 <= ch && ch < 0xE0 {
        1
    } else if 0xE0 <= ch && ch < 0xF0 {
        2
    } else if 0xF0 <= ch && ch < 0xF8 {
        3
    } else {
        0
    }
}

/// Whether `ch` can start a UTF-8 sequence.
pub fn is_utf8(ch: u8) -> (r: bool)
    ensures
        r == is_lead(ch),
{
    ch < 0x80 || (0xC0 <= ch && ch < 0xF8)
}

spec fn payload_bound(i: nat) -> int {
    if i == 0 {
        32
    } else if i == 1 {
        2048
    } else if i == 2 {
        131072
    } else {
        8388608
    }
}

/// Decodes the UTF-8 sequence that starts with `ch`, reading its
/// continuation bytes from the buffer. The caller makes sure they are there.
pub fn to_utf8(buf: &mut InputBuffer, ch: u8) -> (r: u32)
    requires
        old(buf).wf(),
        old(buf)@.len() >= trailing_count(ch),
    ensures
        final(buf).wf(),
        r == decode_utf8(ch, old(buf)@).0,
        final(buf)@ == old(buf)@.skip(decode_utf8(ch, old(buf)@).1 as int),
{
    if ch < 0x80 {
        assert(old(buf)@.skip(0) =~= old(buf)@);
        return ch as u32;
    }
    let (lead, n, min): (u32, usize, u32) = if 0xC0 <= ch && ch < 0xE0 {
        ((ch - 0xC0) as u32, 1, 0x80)
    } else if 0xE0 <= ch && ch < 0xF0 {
        ((ch - 0xE0) as u32, 2, 0x800)
    } else if 0xF0 <= ch && ch < 0xF8 {
        ((ch - 0xF0) as u32, 3, 0x10000)
    } else {
        assert(old(buf)@.skip(0) =~= old(buf)@);
        return REPLACEMENT;
    };
    let ghost s0 = buf@;
    let ghost t = s0.take(n as int);
    proof {
        lemma_first_bad(t);
    }
    let mut acc: u32 = lead;
    let mut i: usize = 0;
    while i < n
        invariant
            buf.wf(),
            n == trailing_count(ch),
            1 <= n <= 3,
            s0.len() >= n,
            t == s0.take(n as int),
            0 <= i <= n,
            buf@ == s0.skip(i as int),
            forall|j: int| 0 <= j < i ==> is_cont(#[trigger] s0[j]),
            acc == fold_payloads(lead_bits(ch), s0, i as nat),
            acc < payload_bound(i as nat),
            first_bad(t) <= t.len(),
            forall|j: int| 0 <= j < first_bad(t) ==> is_cont(#[trigger] t[j]),
            first_bad(t) < t.len() ==> !is_cont(t[first_bad(t) as int]),
            lead == lead_bits(ch),
            s0 == old(buf)@,
            ch >= 0x80 && is_lead(ch),
            min == min_code(n as nat),
        decreases n - i,
    {
        let b = pop_key(buf);
        proof {
            assert(b == s0[i as int]);
            assert(s0.skip(i as int).drop_first() =~= s0.skip(i as int + 1));
        }
        if !(0x80 <= b && b < 0xC0) {
            proof {
                assert(t[i as int] == b);
                if first_bad(t) < i {
                    assert(t[first_bad(t) as int] == s0[first_bad(t) as int]);
                }
                if first_bad(t) > i {
                    assert(is_cont(t[i as int]));
                }
                assert(first_bad(t) == i);
                assert(buf@ == s0.skip(i as int + 1));
                assert(s0 == old(buf)@);
                assert(decode_utf8(ch, s0).1 == i + 1);
                assert(decode_utf8(ch, s0).0 == REPLACEMENT);
            }
            return REPLACEMENT;
        }
        acc = acc * 64 + (b - 0x80) as u32;
        i = i + 1;
    }
    proof {
        if first_bad(t) < n {
            assert(t[first_bad(t) as int] == s0[first_bad(t) as int]);
            assert(is_cont(s0[first_bad(t) as int]));
        }
        assert(first_bad(t) == n);
    }
    if acc > 0x10FFFF || (0xD800 <= acc && acc <= 0xDFFF) || acc < min {
        return REPLACEMENT;
    }
    acc
}

} // verus!
