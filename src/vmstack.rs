use vstd::prelude::*;

use crate::value::VMFunction;

verus! {

/// One call frame: where the result goes and how to resume the caller.
#[derive(Debug)]
pub struct Activation {
    /// Absolute register, in the caller's window, that receives the return value.
    pub dest: usize,
    /// The caller's window base.
    pub register_window: usize,
    /// The caller's program counter, already past the call.
    pub program_counter: usize,
    /// The caller's function.
    pub fun: VMFunction,
}

} // verus!
