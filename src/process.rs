//! Process identity and scheduling status.
use vstd::prelude::*;

verus! {

/// A process identifier. Identifiers are handed out in increasing order from 1.
#[derive(Clone, Copy, Debug, PartialEq, Eq, Structural)]
pub struct ProcessId(pub u16);

/// The identifier of the kernel (init) process.
pub const KERNEL_PID: u16 = 1;

/// Where a process stands with respect to the scheduler.
#[derive(Clone, Copy, Debug, PartialEq, Eq, Structural)]
pub enum ProgramStatus {
    Running,
    Ready,
    Blocked,
    Dead,
}

impl ProcessId {
    /// The raw identifier as a machine word, as handed back to user code.
    pub fn as_usize(&self) -> (r: usize)
        ensures
            r == self.0 as usize,
    {
        self.0 as usize
    }
}

/// A character with ASCII `A`..=`Z` mapped to `a`..=`z`.
pub open spec fn ascii_lower_char(c: char) -> char {
    if 'A' <= c && c <= 'Z' {
        ((c as u32) + 32) as char
    } else {
        c
    }
}

/// A text with its ASCII capitals made lower case, other characters kept.
pub open spec fn ascii_lower(s: Seq<char>) -> Seq<char> {
    s.map_values(|c: char| ascii_lower_char(c))
}

/// Relies on str::to_ascii_lowercase: ASCII letters `A` to `Z` become `a`
/// to `z`, every other character is unchanged.
#[verifier::external_body]
pub(crate) fn lowercase_name(name: &str) -> (r: String)
    ensures
        r@ == ascii_lower(name@),
{
    name.to_ascii_lowercase()
}

} // verus!
