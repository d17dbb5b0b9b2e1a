//! Register writes that the verified code asks the caller to perform.
use vstd::prelude::*;

verus! {

/// One 32-bit store to a memory-mapped peripheral register.
#[derive(Clone, Copy, Debug, PartialEq, Eq, Structural)]
pub struct RegWrite {
    /// Physical address of the register.
    pub addr: usize,
    /// Value stored there.
    pub value: u32,
}

} // verus!
