//! The task control block, its status, and the syscall counters it carries.
use vstd::prelude::*;
use crate::config::{stride_inc, DEFAULT_PRIORITY, MAX_PRIORITY, MIN_PRIORITY};
use crate::context::TaskContext;
use crate::mm::MemorySet;

verus! {

/// Size of the syscall-count table that `get_current_info` reports, indexed
/// by syscall number.
pub const MAX_SYSCALL_NUM: usize = 500;

/// Number of syscalls whose calls are counted.
pub const TRACKED_SYSCALL_NUM: usize = 20;

/// The counter slot of syscall number `id`, or `None` when calls to it are
/// not counted.
pub open spec fn tracked_index(id: int) -> Option<int> {
    if id == 35 { Some(0) }
    else if id == 37 { Some(1) }
    else if id == 56 { Some(2) }
    else if id == 57 { Some(3) }
    else if id == 63 { Some(4) }
    else if id == 64 { Some(5) }
    else if id == 80 { Some(6) }
    else if id == 93 { Some(7) }
    else if id == 124 { Some(8) }
    else if id == 140 { Some(9) }
    else if id == 169 { Some(10) }
    else if id == 172 { Some(11) }
    else if id == 214 { Some(12) }
    else if id == 215 { Some(13) }
    else if id == 220 { Some(14) }
    else if id == 221 { Some(15) }
    else if id == 222 { Some(16) }
    else if id == 260 { Some(17) }
    else if id == 400 { Some(18) }
    else if id == 410 { Some(19) }
    else { None }
}

/// Returns the counter slot of syscall number `id`, or `None` when calls to
/// it are not counted.
pub fn syscall_index(id: usize) -> (r: Option<usize>)
    ensures
        r is Some <==> tracked_index(id as int) is Some,
        r is Some ==> r->0 as int == tracked_index(id as int)->0,
        r is Some ==> r->0 < TRACKED_SYSCALL_NUM,
{
    match id {
        35 => Some(0),
        37 => Some(1),
        56 => Some(2),
        57 => Some(3),
        63 => Some(4),
        64 => Some(5),
        80 => Some(6),
        93 => Some(7),
        124 => Some(8),
        140 => Some(9),
        169 => Some(10),
        172 => Some(11),
        214 => Some(12),
        215 => Some(13),
        220 => Some(14),
        221 => Some(15),
        222 => Some(16),
        260 => Some(17),
        400 => Some(18),
        410 => Some(19),
        _ => None,
    }
}

/// Lifecycle of a task: `UnInit -> Ready -> Running -> {Ready, Exited}`.
#[derive(Clone, Copy, Debug, PartialEq, Eq, Structural)]
pub enum TaskStatus {
    UnInit,
    Ready,
    Running,
    Exited,
}

/// One task: identity, scheduling state, saved context, address space and
/// accounting.
pub struct TaskControlBlock {
    /// Position in the task table, fixed at creation.
    pub id: usize,
    pub task_status: TaskStatus,
    /// Saved context; meaningful while the task is not running.
    pub task_cx: TaskContext,
    pub memory_set: MemorySet,
    /// Physical page that holds the task's trap context.
    pub trap_cx_ppn: usize,
    /// Lowest address of the heap.
    pub heap_bottom: usize,
    /// Current end of the heap.
    pub program_brk: usize,
    /// Scheduling priority, in `[MIN_PRIORITY, MAX_PRIORITY]`.
    pub prior: u64,
    /// Stride accumulator.
    pub stride: u64,
    /// Clock reading of the first run; `None` until then.
    pub start_time: Option<u64>,
    /// Calls of each counted syscall, by counter slot.
    pub syscall_times: Vec<u32>,
}

/// `a + b`, or `u64::MAX` where that does not fit.
pub open spec fn sat_add(a: u64, b: u64) -> u64 {
    if a + b <= u64::MAX {
        (a + b) as u64
    } else {
        u64::MAX
    }
}

impl TaskControlBlock {
    pub open spec fn wf(self) -> bool {
        &&& self.memory_set.wf()
        &&& MIN_PRIORITY <= self.prior <= MAX_PRIORITY
        &&& self.syscall_times@.len() == TRACKED_SYSCALL_NUM
        &&& self.heap_bottom <= self.program_brk
    }

    /// `b` is `a` after `a` was granted a quantum under the stride policy:
    /// same priority, stride advanced by one increment.
    pub open spec fn stride_granted(a: TaskControlBlock, b: TaskControlBlock) -> bool {
        &&& b.prior == a.prior
        &&& b.stride == sat_add(a.stride, stride_inc(a.prior))
    }

    /// `b` has the priority and stride of `a`.
    pub open spec fn stride_kept(a: TaskControlBlock, b: TaskControlBlock) -> bool {
        &&& b.prior == a.prior
        &&& b.stride == a.stride
    }

    /// `b` is `a` after a transition into Running at clock reading `now`:
    /// the start time is set if it was not.
    pub open spec fn start_granted(a: TaskControlBlock, b: TaskControlBlock, now: u64) -> bool {
        b.start_time == if a.start_time is None {
            Some(now)
        } else {
            a.start_time
        }
    }

    /// `b` has the start time of `a`.
    pub open spec fn start_kept(a: TaskControlBlock, b: TaskControlBlock) -> bool {
        b.start_time == a.start_time
    }

    /// A Ready task at position `id`, with priority `DEFAULT_PRIORITY`,
    /// stride 0, no start time and every counter zero, that resumes at
    /// `trap_return` on kernel stack `kstack_top` and whose heap begins
    /// empty at `user_sp`.
    pub fn new(
        id: usize,
        memory_set: MemorySet,
        trap_cx_ppn: usize,
        kstack_top: usize,
        trap_return: usize,
        user_sp: usize,
    ) -> (r: TaskControlBlock)
        requires
            memory_set.wf(),
        ensures
            r.wf(),
            r.id == id,
            r.task_status == TaskStatus::Ready,
            r.memory_set == memory_set,
            r.trap_cx_ppn == trap_cx_ppn,
            r.task_cx.ra == trap_return,
            r.task_cx.sp == kstack_top,
            r.heap_bottom == user_sp,
            r.program_brk == user_sp,
            r.prior == DEFAULT_PRIORITY,
            r.stride == 0,
            r.start_time is None,
            forall|k: int| 0 <= k < TRACKED_SYSCALL_NUM ==> r.syscall_times@[k] == 0,
    {
        let syscall_times: Vec<u32> = vec![0u32; TRACKED_SYSCALL_NUM];
        TaskControlBlock {
            id,
            task_status: TaskStatus::Ready,
            task_cx: TaskContext::goto_restore(kstack_top, trap_return),
            memory_set,
            trap_cx_ppn,
            heap_bottom: user_sp,
            program_brk: user_sp,
            prior: DEFAULT_PRIORITY,
            stride: 0,
            start_time: None,
            syscall_times,
        }
    }

    /// The token of the task's page table.
    pub fn get_user_token(&self) -> (r: usize)
        ensures
            r == self.memory_set.token,
    {
        self.memory_set.token()
    }

    /// The physical page of the task's trap context.
    pub fn get_trap_cx_ppn(&self) -> (r: usize)
        ensures
            r == self.trap_cx_ppn,
    {
        self.trap_cx_ppn
    }

    /// Moves the heap end by `size` bytes and returns the old end; `None`
    /// (and no change) when the new end would fall below the heap's bottom
    /// or past the address space.
    pub fn change_program_brk(&mut self, size: i32) -> (r: Option<usize>)
        requires
            old(self).wf(),
        ensures
            final(self).wf(),
            ({
                let new_brk = old(self).program_brk + size;
                if old(self).heap_bottom <= new_brk <= usize::MAX {
                    &&& r == Some(old(self).program_brk)
                    &&& *final(self) == (TaskControlBlock { program_brk: new_brk as usize, ..*old(self) })
                } else {
                    r is None && *final(self) == *old(self)
                }
            }),
    {
        let old_break = self.program_brk;
        if size < 0 {
            let dec: usize = (-(size as i64)) as usize;
            if dec > old_break - self.heap_bottom {
                return None;
            }
            self.program_brk = old_break - dec;
        } else {
            let inc: usize = size as usize;
            if inc > usize::MAX - old_break {
                return None;
            }
            self.program_brk = old_break + inc;
        }
        Some(old_break)
    }
}

} // verus!
