//! Small kernel utilities.
use vstd::prelude::*;

verus! {

/// The banner printed at boot.
pub fn get_ascii_header() -> (r: &'static str)
{
    "
__  __      __  _____            ____  _____
\\ \\/ /___ _/ /_/ ___/___  ____  / __ \\/ ___/
 \\  / __ `/ __/\\__ \\/ _ \\/ __ \\/ / / /\\__ \\
 / / /_/ / /_ ___/ /  __/ / / / /_/ /___/ /
/_/\\__,_/\\__//____/\\___/_/ /_/\\____//____/

                                       v0.1.0"
}

/// Number of words the stack-growth self-test puts on the stack.
pub const GROW_STACK_WORDS: usize = 4096;

/// Stack-growth self-test: writes every 64th word of a 32 KiB local array
/// and reads them back; true when every word read back is the one written.
pub fn grow_stack() -> (r: bool)
    ensures
        r,
{
    let mut array = [0u64; 4096];
    let mut i: usize = 0;
    while i < GROW_STACK_WORDS
        invariant
            i <= GROW_STACK_WORDS + 63,
            i % 64 == 0,
            forall|j: int| 0 <= j < i && j < GROW_STACK_WORDS && j % 64 == 0 ==> array@[j] == j as u64,
        decreases GROW_STACK_WORDS + 64 - i,
    {
        array[i] = i as u64;
        i = i + 64;
    }
    let mut ok = true;
    let mut k: usize = 0;
    while k < GROW_STACK_WORDS
        invariant
            k <= GROW_STACK_WORDS + 63,
            k % 64 == 0,
            ok,
            forall|j: int| 0 <= j < GROW_STACK_WORDS && j % 64 == 0 ==> array@[j] == j as u64,
        decreases GROW_STACK_WORDS + 64 - k,
    {
        if array[k] != k as u64 {
            ok = false;
        }
        k = k + 64;
    }
    ok
}

} // verus!
