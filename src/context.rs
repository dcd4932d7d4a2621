//! The saved execution context that the switch primitive exchanges.
use vstd::prelude::*;

verus! {

/// Callee-saved registers and the resume address of a suspended flow.
#[derive(Clone, Copy, Debug)]
pub struct TaskContext {
    /// Address where the flow resumes.
    pub ra: usize,
    /// Kernel stack pointer of the flow.
    pub sp: usize,
    /// Callee-saved registers s0..s11.
    pub s: [usize; 12],
}

impl TaskContext {
    /// A context with every register zero; filled by the first switch away
    /// from it.
    pub fn zero_init() -> (r: TaskContext)
        ensures
            r.ra == 0,
            r.sp == 0,
            forall|i: int| 0 <= i < 12 ==> r.s[i] == 0,
    {
        TaskContext { ra: 0, sp: 0, s: [0usize; 12] }
    }

    /// A context that resumes at `trap_return` on kernel stack `kstack_ptr`,
    /// so that its first run drops into user code.
    pub fn goto_restore(kstack_ptr: usize, trap_return: usize) -> (r: TaskContext)
        ensures
            r.ra == trap_return,
            r.sp == kstack_ptr,
            forall|i: int| 0 <= i < 12 ==> r.s[i] == 0,
    {
        TaskContext { ra: trap_return, sp: kstack_ptr, s: [0usize; 12] }
    }
}

} // verus!
