//! The address arithmetic of loading a domain binary.

use vstd::prelude::*;

verus! {

/// The number of bytes of a binary that runs from `binary_start` up to `binary_end`.
pub fn binary_len(binary_start: usize, binary_end: usize) -> (r: usize)
    requires
        binary_start <= binary_end,
    ensures
        r == binary_end - binary_start,
{
    binary_end - binary_start
}

/// The address of a loaded domain's entry point: the address the domain was loaded at
/// plus the entry point its binary names.
pub fn domain_entry_point(offset: u64, entry_point: u64) -> (r: u64)
    requires
        offset + entry_point <= u64::MAX,
    ensures
        r == offset + entry_point,
{
    offset + entry_point
}

/// Marks the moment a domain was loaded, for a debugger that sets a breakpoint on it.
pub fn gdb_notify_new_domain_loaded() {
}

} // verus!
