//! The processor's current-task cell and the scheduler's idle context.
use vstd::prelude::*;
use crate::config::{MAX_PRIORITY, MIN_PRIORITY};
use crate::context::TaskContext;
use crate::manager::{reported_count, TaskInfo, TaskManager};
use crate::task::{syscall_index, tracked_index, TaskControlBlock, MAX_SYSCALL_NUM};

verus! {

/// What the single processor runs: at most one current task (by its
/// position in the task table) and the context of the scheduling loop.
pub struct Processor {
    /// The task currently executing on the processor.
    pub current: Option<usize>,
    /// The context of the scheduling loop, switched to when a task gives up
    /// the processor.
    pub idle_task_cx: TaskContext,
}

impl Processor {
    /// A processor with no current task.
    pub fn new() -> (r: Processor)
        ensures
            r.current is None,
            r.idle_task_cx.ra == 0,
            r.idle_task_cx.sp == 0,
            forall|i: int| 0 <= i < 12 ==> r.idle_task_cx.s[i] == 0,
    {
        Processor { current: None, idle_task_cx: TaskContext::zero_init() }
    }

    /// Takes the current task out of the cell, leaving it empty.
    pub fn take_current(&mut self) -> (r: Option<usize>)
        ensures
            r == old(self).current,
            final(self).current is None,
            final(self).idle_task_cx == old(self).idle_task_cx,
    {
        let r = self.current;
        self.current = None;
        r
    }

    /// The current task, leaving the cell as it is.
    pub fn current(&self) -> (r: Option<usize>)
        ensures
            r == self.current,
    {
        self.current
    }

    /// The context of the scheduling loop.
    pub fn idle_task_cx(&self) -> (r: TaskContext)
        ensures
            r == self.idle_task_cx,
    {
        self.idle_task_cx
    }
}

/// Takes the current task out of the processor's cell, leaving it empty
/// until `restore_current_task`.
pub fn take_current_task(tm: &mut TaskManager) -> (r: Option<usize>)
    requires
        old(tm).wf(),
    ensures
        final(tm).wf(),
        r == old(tm).processor.current,
        final(tm).processor.current is None,
        TaskManager::same_frame(*old(tm), *final(tm)),
        final(tm).tasks == old(tm).tasks,
{
    let r = tm.processor.take_current();
    proof {
        assert forall|a: int, b: int| #[trigger] tm.is_running(a) && #[trigger] tm.is_running(b) implies a == b by {
            assert(old(tm).is_running(a) && old(tm).is_running(b));
        }
        assert forall|a: int| #[trigger] tm.is_running(a) implies tm.tasks@[a].start_time is Some by {
            assert(old(tm).is_running(a));
        }
    }
    r
}

/// Puts running task `i` back into the processor's empty cell.
pub fn restore_current_task(tm: &mut TaskManager, i: usize)
    requires
        old(tm).wf(),
        old(tm).processor.current is None,
        old(tm).is_running(i as int),
    ensures
        final(tm).wf(),
        final(tm).processor.current == Some(i),
        TaskManager::same_frame(*old(tm), *final(tm)),
        final(tm).tasks == old(tm).tasks,
{
    tm.processor.current = Some(i);
    proof {
        assert forall|a: int, b: int| #[trigger] tm.is_running(a) && #[trigger] tm.is_running(b) implies a == b by {
            assert(old(tm).is_running(a) && old(tm).is_running(b));
        }
    }
}

/// The current task, if the processor's cell holds one.
pub fn current_task(tm: &TaskManager) -> (r: Option<usize>)
    ensures
        r == tm.processor.current,
{
    tm.processor.current()
}

/// `x + 1`, or `x` where that does not fit.
pub open spec fn count_up(x: u32) -> u32 {
    if x < u32::MAX {
        (x + 1) as u32
    } else {
        x
    }
}

/// Counts one more call of syscall `syscall_id` for the current task.
pub fn add_current_syscall_cnt(tm: &mut TaskManager, syscall_id: usize)
    requires
        old(tm).wf(),
        old(tm).processor.current is Some,
        tracked_index(syscall_id as int) is Some,
    ensures
        final(tm).wf(),
        TaskManager::only_current_changed(*old(tm), *final(tm)),
        TaskManager::accounting_kept(*old(tm), *final(tm)),
        ({
            let t = old(tm).tasks@[old(tm).cur()];
            let u = final(tm).tasks@[old(tm).cur()];
            let k = tracked_index(syscall_id as int)->0;
            &&& u == (TaskControlBlock { syscall_times: u.syscall_times, ..t })
            &&& u.syscall_times@ == t.syscall_times@.update(k, count_up(t.syscall_times@[k]))
        }),
{
    let c = tm.processor.current.unwrap();
    let k = syscall_index(syscall_id).unwrap();
    let v = tm.tasks[c].syscall_times[k];
    tm.tasks[c].syscall_times[k] = v.saturating_add(1);
    proof {
        TaskManager::lemma_wf_statuses_kept(*old(tm), *tm);
    }
}

/// What the current task learns about itself at clock reading `now`: its
/// status, its calls by syscall number, and the time since it first ran
/// (0 if `now` is earlier); `None` when it has never run.
pub fn get_current_info(tm: &TaskManager, now: u64) -> (r: Option<TaskInfo>)
    requires
        tm.wf(),
        tm.processor.current is Some,
    ensures
        ({
            let t = tm.tasks@[tm.cur()];
            &&& r is None <==> t.start_time is None
            &&& r is Some ==> {
                let info = r->0;
                let start = t.start_time->0;
                &&& info.status == t.task_status
                &&& info.time == if now >= start { now - start } else { 0 }
                &&& info.syscall_times@.len() == MAX_SYSCALL_NUM
                &&& forall|id: int| 0 <= id < MAX_SYSCALL_NUM ==>
                    #[trigger] info.syscall_times@[id] == reported_count(t.syscall_times@, id)
            }
        }),
{
    let c = tm.processor.current.unwrap();
    let t = &tm.tasks[c];
    let start = match t.start_time {
        Some(s) => s,
        None => {
            return None;
        },
    };
    let mut syscall_times: Vec<u32> = Vec::new();
    let mut id: usize = 0;
    while id < MAX_SYSCALL_NUM
        invariant
            t.wf(),
            id <= MAX_SYSCALL_NUM,
            syscall_times@.len() == id,
            forall|j: int| 0 <= j < id ==> #[trigger] syscall_times@[j] == reported_count(t.syscall_times@, j),
        decreases MAX_SYSCALL_NUM - id,
    {
        let n = match syscall_index(id) {
            Some(k) => t.syscall_times[k],
            None => 0,
        };
        syscall_times.push(n);
        id = id + 1;
    }
    let time = if now >= start {
        now - start
    } else {
        0
    };
    Some(TaskInfo { status: t.task_status, syscall_times, time })
}

/// Sets the current task's priority to `prio` and returns it; -1 (and no
/// change) when `prio` lies outside `[MIN_PRIORITY, MAX_PRIORITY]`.
pub fn curr_set_priority(tm: &mut TaskManager, prio: isize) -> (r: isize)
    requires
        old(tm).wf(),
        old(tm).processor.current is Some,
    ensures
        final(tm).wf(),
        TaskManager::only_current_changed(*old(tm), *final(tm)),
        ({
            let t = old(tm).tasks@[old(tm).cur()];
            if MIN_PRIORITY <= prio <= MAX_PRIORITY {
                &&& r == prio
                &&& final(tm).tasks@[old(tm).cur()] == (TaskControlBlock { prior: prio as u64, ..t })
            } else {
                r == -1 && final(tm).tasks@ == old(tm).tasks@
            }
        }),
{
    if prio < MIN_PRIORITY as isize || prio > MAX_PRIORITY as isize {
        return -1;
    }
    let c = tm.processor.current.unwrap();
    tm.tasks[c].prior = prio as u64;
    proof {
        TaskManager::lemma_wf_statuses_kept(*old(tm), *tm);
    }
    prio
}

} // verus!
