//! The initial stack of the program.

use vstd::prelude::*;

verus! {

/// Size of the stack mapping: two mebibytes.
pub const STACK_SIZE: u64 = 2097152;

/// The initial stack pointer for a stack mapped at `base`: the first address
/// past the mapping, from which the stack grows down. `None` where the
/// mapping would end beyond the address space.
pub fn stack_top(base: u64) -> (r: Option<u64>)
    ensures
        r is Some <==> base + STACK_SIZE <= u64::MAX,
        r matches Some(top) ==> top == base + STACK_SIZE,
{
    if base <= u64::MAX - STACK_SIZE {
        Some(base + STACK_SIZE)
    } else {
        None
    }
}

} // verus!
