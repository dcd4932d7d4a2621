//! The task table, the choice of the next task, and the state changes that
//! the scheduling loop and the syscall layer ask for.
//!
//! The context switch itself is not done here: an operation that hands the
//! processor to a task returns that task's position, and the caller performs
//! the switch to its saved context (or to the idle context when the current
//! task gives the processor up).
use vstd::prelude::*;
use crate::config::{stride_inc, stride_increment, DEFAULT_PRIORITY};
use crate::mm::{MapPermission, MemorySet};
use crate::processor::Processor;
use crate::task::{sat_add, tracked_index, TaskControlBlock, TaskStatus, TRACKED_SYSCALL_NUM};

verus! {

/// How the next task is chosen.
#[derive(Clone, Copy, Debug, PartialEq, Eq, Structural)]
pub enum SchedPolicy {
    /// The Ready task with the smallest stride, lowest position on ties;
    /// each grant advances the stride by `BIG_STRIDE / priority`, stopping at
    /// `u64::MAX` (the counter saturates rather than wraps).
    Stride,
    /// The first Ready task after the last one run, in table order.
    RoundRobin,
}

/// What a task learns about itself from `get_current_info`.
pub struct TaskInfo {
    pub status: TaskStatus,
    /// Calls so far, by syscall number; `MAX_SYSCALL_NUM` entries.
    pub syscall_times: Vec<u32>,
    /// Milliseconds since the task first ran.
    pub time: u64,
}

/// Every task of the kernel and the processor that runs them.
pub struct TaskManager {
    /// Number of tasks.
    pub num_app: usize,
    /// The task table; a task's position is its id.
    pub tasks: Vec<TaskControlBlock>,
    /// Position of the task granted the processor last.
    pub current_task: usize,
    pub policy: SchedPolicy,
    pub processor: Processor,
}

/// `t` after it was granted the processor at clock reading `now`, its stride
/// advanced when `bump`.
pub open spec fn granted_tcb(t: TaskControlBlock, now: u64, bump: bool) -> TaskControlBlock {
    TaskControlBlock {
        task_status: TaskStatus::Running,
        start_time: if t.start_time is None {
            Some(now)
        } else {
            t.start_time
        },
        stride: if bump {
            sat_add(t.stride, stride_inc(t.prior))
        } else {
            t.stride
        },
        ..t
    }
}

/// The entry that `get_current_info` reports for syscall number `id`.
pub open spec fn reported_count(counts: Seq<u32>, id: int) -> u32 {
    match tracked_index(id) {
        Some(k) => counts[k],
        None => 0,
    }
}

impl TaskManager {
    pub open spec fn len(self) -> int {
        self.tasks@.len() as int
    }

    pub open spec fn is_ready(self, i: int) -> bool {
        0 <= i < self.len() && self.tasks@[i].task_status == TaskStatus::Ready
    }

    pub open spec fn is_running(self, i: int) -> bool {
        0 <= i < self.len() && self.tasks@[i].task_status == TaskStatus::Running
    }

    pub open spec fn has_ready(self) -> bool {
        exists|i: int| #[trigger] self.is_ready(i)
    }

    pub open spec fn has_running(self) -> bool {
        exists|i: int| #[trigger] self.is_running(i)
    }

    /// The position of the current task.
    pub open spec fn cur(self) -> int {
        self.processor.current->0 as int
    }

    /// Every task is well formed and sits at its own id; at most one task
    /// runs, a running task has its start time, and the processor's current
    /// task is a running one.
    pub open spec fn wf(self) -> bool {
        &&& self.num_app == self.tasks@.len()
        &&& self.current_task == 0 || self.current_task < self.tasks@.len()
        &&& forall|i: int| 0 <= i < self.len() ==> (#[trigger] self.tasks@[i]).wf()
        &&& forall|i: int| 0 <= i < self.len() ==> (#[trigger] self.tasks@[i]).id == i
        &&& forall|i: int, j: int|
            #[trigger] self.is_running(i) && #[trigger] self.is_running(j) ==> i == j
        &&& forall|i: int| #[trigger] self.is_running(i) ==> self.tasks@[i].start_time is Some
        &&& self.processor.current is Some ==> self.is_running(self.cur())
    }

    /// Position `i` is what the stride policy picks: a Ready task of least
    /// stride, the lowest such position.
    pub open spec fn is_stride_choice(self, i: int) -> bool {
        &&& self.is_ready(i)
        &&& forall|j: int| #[trigger] self.is_ready(j) ==> self.tasks@[i].stride <= self.tasks@[j].stride
        &&& forall|j: int| 0 <= j < i && #[trigger] self.is_ready(j) ==> self.tasks@[j].stride > self.tasks@[i].stride
    }

    /// How many positions the round-robin scan passes before it reaches `j`,
    /// starting right after `current_task`.
    pub open spec fn rr_dist(self, j: int) -> int {
        if j > self.current_task {
            j - self.current_task - 1
        } else {
            j + self.len() - self.current_task - 1
        }
    }

    /// Position `i` is what the round-robin policy picks: the first Ready
    /// task that the scan reaches.
    pub open spec fn is_rr_choice(self, i: int) -> bool {
        &&& self.is_ready(i)
        &&& forall|j: int| #[trigger] self.is_ready(j) ==> self.rr_dist(i) <= self.rr_dist(j)
    }

    pub open spec fn is_choice(self, i: int) -> bool {
        match self.policy {
            SchedPolicy::Stride => self.is_stride_choice(i),
            SchedPolicy::RoundRobin => self.is_rr_choice(i),
        }
    }

    /// `post` agrees with `pre` on everything but the task table and the
    /// processor's current task.
    pub open spec fn same_frame(pre: TaskManager, post: TaskManager) -> bool {
        &&& post.num_app == pre.num_app
        &&& post.current_task == pre.current_task
        &&& post.policy == pre.policy
        &&& post.processor.idle_task_cx == pre.processor.idle_task_cx
    }

    /// Every task keeps its priority, stride and start time from `pre` to
    /// `post`.
    pub open spec fn accounting_kept(pre: TaskManager, post: TaskManager) -> bool {
        &&& post.tasks@.len() == pre.tasks@.len()
        &&& forall|j: int|
            0 <= j < pre.tasks@.len() ==> TaskControlBlock::stride_kept(
                #[trigger] pre.tasks@[j],
                post.tasks@[j],
            ) && TaskControlBlock::start_kept(pre.tasks@[j], post.tasks@[j])
    }

    /// Per task, what `run_next_task(now)` returning `r` does to the
    /// accounting: the granted task has its start time set if it was unset
    /// and, under the stride policy, its stride advanced; every other task
    /// keeps priority, stride and start time.
    pub open spec fn accounting_step(pre: TaskManager, post: TaskManager, now: u64, r: Option<usize>) -> bool {
        &&& post.tasks@.len() == pre.tasks@.len()
        &&& forall|j: int| 0 <= j < pre.tasks@.len() ==> {
            let a = #[trigger] pre.tasks@[j];
            let b = post.tasks@[j];
            let granted = r == Some(j as usize);
            &&& if granted && pre.policy == SchedPolicy::Stride {
                TaskControlBlock::stride_granted(a, b)
            } else {
                TaskControlBlock::stride_kept(a, b)
            }
            &&& if granted {
                TaskControlBlock::start_granted(a, b, now)
            } else {
                TaskControlBlock::start_kept(a, b)
            }
        }
    }

    /// `post` is `pre` after task `i` was granted the processor at `now`.
    pub open spec fn granted_post(pre: TaskManager, post: TaskManager, i: int, now: u64) -> bool {
        &&& post.num_app == pre.num_app
        &&& post.policy == pre.policy
        &&& post.processor.idle_task_cx == pre.processor.idle_task_cx
        &&& post.current_task == i
        &&& post.processor.current == Some(i as usize)
        &&& post.tasks@ == pre.tasks@.update(
            i,
            granted_tcb(pre.tasks@[i], now, pre.policy == SchedPolicy::Stride),
        )
    }

    /// `post` and `r` are what `run_next_task(now)` makes of `pre`.
    pub open spec fn next_task_post(pre: TaskManager, post: TaskManager, now: u64, r: Option<usize>) -> bool {
        match r {
            None => !pre.has_ready() && post == pre,
            Some(i) => pre.is_choice(i as int) && Self::granted_post(pre, post, i as int, now),
        }
    }

    /// An empty table under `policy`.
    pub fn new(policy: SchedPolicy) -> (r: TaskManager)
        ensures
            r.wf(),
            r.tasks@.len() == 0,
            r.policy == policy,
            r.processor.current is None,
            r.processor.idle_task_cx.ra == 0,
            r.processor.idle_task_cx.sp == 0,
            forall|i: int| 0 <= i < 12 ==> r.processor.idle_task_cx.s[i] == 0,
    {
        TaskManager {
            num_app: 0,
            tasks: Vec::new(),
            current_task: 0,
            policy,
            processor: Processor::new(),
        }
    }

    /// Adds a Ready task at the next position (see `TaskControlBlock::new`)
    /// and returns that position.
    pub fn add_task(
        &mut self,
        memory_set: MemorySet,
        trap_cx_ppn: usize,
        kstack_top: usize,
        trap_return: usize,
        user_sp: usize,
    ) -> (r: usize)
        requires
            old(self).wf(),
            memory_set.wf(),
            old(self).tasks@.len() < usize::MAX,
        ensures
            final(self).wf(),
            r == old(self).tasks@.len(),
            final(self).tasks@.len() == old(self).tasks@.len() + 1,
            final(self).tasks@.drop_last() == old(self).tasks@,
            final(self).tasks@[r as int].id == r,
            final(self).tasks@[r as int].task_status == TaskStatus::Ready,
            final(self).tasks@[r as int].memory_set == memory_set,
            final(self).tasks@[r as int].trap_cx_ppn == trap_cx_ppn,
            final(self).tasks@[r as int].task_cx.ra == trap_return,
            final(self).tasks@[r as int].task_cx.sp == kstack_top,
            final(self).tasks@[r as int].heap_bottom == user_sp,
            final(self).tasks@[r as int].program_brk == user_sp,
            final(self).tasks@[r as int].prior == DEFAULT_PRIORITY,
            final(self).tasks@[r as int].stride == 0,
            final(self).tasks@[r as int].start_time is None,
            forall|k: int| 0 <= k < TRACKED_SYSCALL_NUM ==> final(self).tasks@[r as int].syscall_times@[k] == 0,
            final(self).policy == old(self).policy,
            final(self).processor == old(self).processor,
            final(self).current_task == old(self).current_task,
    {
        let id = self.tasks.len();
        let tcb = TaskControlBlock::new(id, memory_set, trap_cx_ppn, kstack_top, trap_return, user_sp);
        self.tasks.push(tcb);
        self.num_app = self.num_app + 1;
        proof {
            assert(self.tasks@.drop_last() =~= old(self).tasks@);
            assert forall|i: int| 0 <= i < self.len() implies (#[trigger] self.tasks@[i]).wf()
                && self.tasks@[i].id == i by {
                if i < old(self).len() {
                    assert(self.tasks@[i] == old(self).tasks@[i]);
                }
            }
            assert forall|i: int, j: int| #[trigger] self.is_running(i) && #[trigger] self.is_running(j) implies i == j by {
                assert(old(self).is_running(i) && old(self).is_running(j));
            }
            if self.processor.current is Some {
                assert(old(self).is_running(old(self).cur()));
            }
            assert forall|a: int| #[trigger] self.is_running(a) implies self.tasks@[a].start_time is Some by {
                assert(old(self).is_running(a));
            }
        }
        id
    }
}

impl TaskManager {
    /// The position that the stride policy picks, or `None` when no task is
    /// Ready.
    pub fn find_min_stride(&self) -> (r: Option<usize>)
        requires
            self.wf(),
        ensures
            r is None <==> !self.has_ready(),
            r is Some ==> self.is_stride_choice(r->0 as int),
    {
        let mut best: Option<usize> = None;
        let mut i: usize = 0;
        while i < self.tasks.len()
            invariant
                i <= self.tasks@.len(),
                best is None ==> forall|j: int| 0 <= j < i ==> !#[trigger] self.is_ready(j),
                best is Some ==> {
                    let b = best->0 as int;
                    &&& b < i
                    &&& self.is_ready(b)
                    &&& forall|j: int| 0 <= j < i && #[trigger] self.is_ready(j) ==> self.tasks@[b].stride <= self.tasks@[j].stride
                    &&& forall|j: int| 0 <= j < b && #[trigger] self.is_ready(j) ==> self.tasks@[j].stride > self.tasks@[b].stride
                },
            decreases self.tasks@.len() - i,
        {
            if self.tasks[i].task_status == TaskStatus::Ready {
                match best {
                    None => {
                        best = Some(i);
                    },
                    Some(b) => {
                        if self.tasks[i].stride < self.tasks[b].stride {
                            best = Some(i);
                        }
                    },
                }
            }
            i = i + 1;
        }
        best
    }

    /// The position that the round-robin policy picks, or `None` when no
    /// task is Ready.
    pub fn find_next_task(&self) -> (r: Option<usize>)
        requires
            self.wf(),
        ensures
            r is None <==> !self.has_ready(),
            r is Some ==> self.is_rr_choice(r->0 as int),
    {
        let n = self.tasks.len();
        if n == 0 {
            return None;
        }
        let mut id: usize = self.current_task;
        let mut k: usize = 0;
        while k < n
            invariant
                n == self.tasks@.len(),
                n > 0,
                self.current_task < n,
                id < n,
                k <= n,
                k == 0 ==> id == self.current_task,
                k > 0 ==> self.rr_dist(id as int) == k - 1,
                forall|j: int| 0 <= j < n && self.rr_dist(j) < k ==> !#[trigger] self.is_ready(j),
            decreases n - k,
        {
            id = if id + 1 == n {
                0
            } else {
                id + 1
            };
            if self.tasks[id].task_status == TaskStatus::Ready {
                assert(self.is_ready(id as int));
                return Some(id);
            }
            k = k + 1;
        }
        proof {
            assert forall|j: int| !#[trigger] self.is_ready(j) by {
                if 0 <= j < n {
                    assert(self.rr_dist(j) < n);
                }
            }
        }
        None
    }

    /// The position that the table's policy picks, or `None` when no task is
    /// Ready.
    pub fn fetch_task(&self) -> (r: Option<usize>)
        requires
            self.wf(),
        ensures
            r is None <==> !self.has_ready(),
            r is Some ==> self.is_choice(r->0 as int),
    {
        match self.policy {
            SchedPolicy::Stride => self.find_min_stride(),
            SchedPolicy::RoundRobin => self.find_next_task(),
        }
    }

    /// Marks task `i` Running, sets its start time if unset, advances its
    /// stride under the stride policy, and makes it the current task.
    fn grant(&mut self, i: usize, now: u64)
        requires
            old(self).wf(),
            !old(self).has_running(),
            old(self).is_ready(i as int),
        ensures
            final(self).wf(),
            Self::granted_post(*old(self), *final(self), i as int, now),
    {
        let bump = self.policy == SchedPolicy::Stride;
        let inc = stride_increment(self.tasks[i].prior);
        self.tasks[i].task_status = TaskStatus::Running;
        if self.tasks[i].start_time.is_none() {
            self.tasks[i].start_time = Some(now);
        }
        if bump {
            self.tasks[i].stride = self.tasks[i].stride.saturating_add(inc);
        }
        self.current_task = i;
        self.processor.current = Some(i);
        proof {
            let t = old(self).tasks@[i as int];
            assert(self.tasks@[i as int] == granted_tcb(t, now, bump));
            assert(self.tasks@ =~= old(self).tasks@.update(i as int, granted_tcb(t, now, bump)));
            assert forall|a: int, b: int| #[trigger] self.is_running(a) && #[trigger] self.is_running(b) implies a == b by {
                if a != i {
                    assert(old(self).is_running(a));
                }
                if b != i {
                    assert(old(self).is_running(b));
                }
            }
            assert forall|a: int| 0 <= a < self.len() implies (#[trigger] self.tasks@[a]).wf()
                && self.tasks@[a].id == a by {
                assert(old(self).tasks@[a].wf());
            }
            assert forall|a: int| #[trigger] self.is_running(a) implies self.tasks@[a].start_time is Some by {
                if a != i {
                    assert(old(self).is_running(a));
                }
            }
        }
    }

    /// Picks the next task under the table's policy and grants it the
    /// processor; returns its position, whose saved context the caller then
    /// switches to, or `None` when no task is Ready (all work is done).
    pub fn run_next_task(&mut self, now: u64) -> (r: Option<usize>)
        requires
            old(self).wf(),
            !old(self).has_running(),
        ensures
            final(self).wf(),
            Self::next_task_post(*old(self), *final(self), now, r),
            Self::accounting_step(*old(self), *final(self), now, r),
    {
        match self.fetch_task() {
            None => None,
            Some(i) => {
                self.grant(i, now);
                Some(i)
            },
        }
    }
}

impl TaskManager {
    /// `post` differs from `pre` at most in the current task's entry.
    pub open spec fn only_current_changed(pre: TaskManager, post: TaskManager) -> bool {
        &&& Self::same_frame(pre, post)
        &&& post.processor.current == pre.processor.current
        &&& post.tasks@.len() == pre.tasks@.len()
        &&& forall|j: int| 0 <= j < pre.tasks@.len() && j != pre.cur() ==> #[trigger] post.tasks@[j] == pre.tasks@[j]
    }

    /// `post` is `pre` after its current task gave the processor up with
    /// status `status`: the entry changes only in that status (and, on exit,
    /// in its emptied address space), and the processor is left idle.
    pub open spec fn released_post(pre: TaskManager, post: TaskManager, status: TaskStatus) -> bool {
        let c = pre.cur();
        &&& Self::same_frame(pre, post)
        &&& post.processor.current is None
        &&& post.tasks@.len() == pre.tasks@.len()
        &&& forall|j: int| 0 <= j < pre.tasks@.len() && j != c ==> #[trigger] post.tasks@[j] == pre.tasks@[j]
        &&& post.tasks@[c] == (TaskControlBlock {
            task_status: status,
            memory_set: post.tasks@[c].memory_set,
            ..pre.tasks@[c]
        })
        &&& post.tasks@[c].memory_set.token == pre.tasks@[c].memory_set.token
        &&& if status == TaskStatus::Exited {
            post.tasks@[c].memory_set.areas@.len() == 0
        } else {
            post.tasks@[c].memory_set == pre.tasks@[c].memory_set
        }
    }

    /// `post` is well formed when it differs from a well-formed `pre` only in
    /// entries that stay well formed and keep their ids and statuses.
    pub(crate) proof fn lemma_wf_statuses_kept(pre: TaskManager, post: TaskManager)
        requires
            pre.wf(),
            post.num_app == pre.num_app,
            post.current_task == pre.current_task,
            post.processor.current == pre.processor.current,
            post.tasks@.len() == pre.tasks@.len(),
            forall|j: int| 0 <= j < pre.tasks@.len() ==> (#[trigger] post.tasks@[j]).wf()
                && post.tasks@[j].id == pre.tasks@[j].id
                && post.tasks@[j].task_status == pre.tasks@[j].task_status
                && post.tasks@[j].start_time == pre.tasks@[j].start_time,
        ensures
            post.wf(),
    {
        assert forall|a: int, b: int| #[trigger] post.is_running(a) && #[trigger] post.is_running(b) implies a == b by {
            assert(pre.is_running(a) && pre.is_running(b));
        }
        if post.processor.current is Some {
            assert(pre.is_running(pre.cur()));
            assert(post.tasks@[pre.cur()].task_status == pre.tasks@[pre.cur()].task_status);
        }
        assert forall|a: int| 0 <= a < post.len() implies (#[trigger] post.tasks@[a]).id == a by {
            assert(pre.tasks@[a].id == a);
        }
        assert forall|a: int| #[trigger] post.is_running(a) implies post.tasks@[a].start_time is Some by {
            assert(pre.is_running(a));
        }
    }

    /// Releases the processor from the current task, leaving it with
    /// `status` (Ready or Exited); on exit its address space is emptied.
    fn release_current(&mut self, status: TaskStatus)
        requires
            old(self).wf(),
            old(self).processor.current is Some,
            status == TaskStatus::Ready || status == TaskStatus::Exited,
        ensures
            final(self).wf(),
            !final(self).has_running(),
            Self::released_post(*old(self), *final(self), status),
    {
        let c = self.processor.take_current().unwrap();
        self.tasks[c].task_status = status;
        if status == TaskStatus::Exited {
            self.tasks[c].memory_set.recycle_data_pages();
        }
        proof {
            assert forall|a: int| 0 <= a < self.len() implies (#[trigger] self.tasks@[a]).wf()
                && self.tasks@[a].id == a by {
                assert(old(self).tasks@[a].wf());
                assert(old(self).tasks@[a].id == a);
            }
            assert forall|a: int| !#[trigger] self.is_running(a) by {
                if a != c && 0 <= a < self.len() {
                    assert(old(self).tasks@[a] == self.tasks@[a]);
                    if old(self).is_running(a) {
                        assert(old(self).is_running(c as int));
                    }
                }
            }
        }
    }

    /// Turns the current task from Running to Ready and leaves the processor
    /// idle.
    pub fn mark_current_suspended(&mut self)
        requires
            old(self).wf(),
            old(self).processor.current is Some,
        ensures
            final(self).wf(),
            !final(self).has_running(),
            Self::released_post(*old(self), *final(self), TaskStatus::Ready),
            Self::accounting_kept(*old(self), *final(self)),
    {
        self.release_current(TaskStatus::Ready);
    }

    /// Turns the current task from Running to Exited, empties its address
    /// space, and leaves the processor idle.
    pub fn mark_current_exited(&mut self)
        requires
            old(self).wf(),
            old(self).processor.current is Some,
        ensures
            final(self).wf(),
            !final(self).has_running(),
            Self::released_post(*old(self), *final(self), TaskStatus::Exited),
            Self::accounting_kept(*old(self), *final(self)),
    {
        self.release_current(TaskStatus::Exited);
    }

    /// Moves the current task's heap end by `size` bytes; see
    /// `TaskControlBlock::change_program_brk`.
    pub fn change_current_program_brk(&mut self, size: i32) -> (r: Option<usize>)
        requires
            old(self).wf(),
            old(self).processor.current is Some,
        ensures
            final(self).wf(),
            Self::only_current_changed(*old(self), *final(self)),
            Self::accounting_kept(*old(self), *final(self)),
            ({
                let t = old(self).tasks@[old(self).cur()];
                let new_brk = t.program_brk + size;
                if t.heap_bottom <= new_brk <= usize::MAX {
                    &&& r == Some(t.program_brk)
                    &&& final(self).tasks@[old(self).cur()] == (TaskControlBlock { program_brk: new_brk as usize, ..t })
                } else {
                    r is None && final(self).tasks@ == old(self).tasks@
                }
            }),
    {
        let c = self.processor.current.unwrap();
        let r = self.tasks[c].change_program_brk(size);
        proof {
            Self::lemma_wf_statuses_kept(*old(self), *self);
            if r is None {
                assert(self.tasks@ =~= old(self).tasks@);
            }
        }
        r
    }

    /// Tells whether some page of `[start, end)` is mapped in the current
    /// task's address space.
    pub fn curr_vpnrange_exist_map(&self, start: usize, end: usize) -> (r: bool)
        requires
            self.wf(),
            self.processor.current is Some,
        ensures
            r == self.tasks@[self.cur()].memory_set.any_mapped(start as int, end as int),
    {
        let c = self.processor.current.unwrap();
        self.tasks[c].memory_set.vpnrange_exist_mapped(start, end)
    }

    /// Tells whether some page of `[start, end)` is not mapped in the
    /// current task's address space.
    pub fn curr_vpnrange_exist_unmap(&self, start: usize, end: usize) -> (r: bool)
        requires
            self.wf(),
            self.processor.current is Some,
        ensures
            r == !self.tasks@[self.cur()].memory_set.all_mapped(start as int, end as int),
    {
        let c = self.processor.current.unwrap();
        self.tasks[c].memory_set.vpnrange_exist_unmapped(start, end)
    }

    /// Adds the area `[start_vpn, end_vpn)`, none of whose pages is mapped, to
    /// the current task's address space.
    pub fn curr_mmap(&mut self, start_vpn: usize, end_vpn: usize, perm: MapPermission)
        requires
            old(self).wf(),
            old(self).processor.current is Some,
            start_vpn < end_vpn,
            !old(self).tasks@[old(self).cur()].memory_set.any_mapped(start_vpn as int, end_vpn as int),
        ensures
            final(self).wf(),
            Self::only_current_changed(*old(self), *final(self)),
            Self::accounting_kept(*old(self), *final(self)),
            ({
                let t = old(self).tasks@[old(self).cur()];
                let u = final(self).tasks@[old(self).cur()];
                &&& u == (TaskControlBlock { memory_set: u.memory_set, ..t })
                &&& u.memory_set.token == t.memory_set.token
                &&& u.memory_set.areas@ == t.memory_set.areas@.push(
                    crate::mm::MapArea { start_vpn, end_vpn, perm },
                )
            }),
    {
        let c = self.processor.current.unwrap();
        self.tasks[c].memory_set.insert_framed_area(start_vpn, end_vpn, perm);
        proof {
            Self::lemma_wf_statuses_kept(*old(self), *self);
        }
    }

    /// Removes the area that begins at page `start_vpn` from the current
    /// task's address space; see `MemorySet::remove_area_with_start_vpn`.
    pub fn curr_munmap_with_start_vpn(&mut self, start_vpn: usize) -> (r: isize)
        requires
            old(self).wf(),
            old(self).processor.current is Some,
        ensures
            final(self).wf(),
            Self::only_current_changed(*old(self), *final(self)),
            Self::accounting_kept(*old(self), *final(self)),
            ({
                let t = old(self).tasks@[old(self).cur()];
                let u = final(self).tasks@[old(self).cur()];
                &&& u == (TaskControlBlock { memory_set: u.memory_set, ..t })
                &&& r == 0 <==> t.memory_set.has_area_at(start_vpn as int)
                &&& r == 0 ==> u.memory_set.token == t.memory_set.token && exists|i: int|
                    0 <= i < t.memory_set.areas@.len()
                        && #[trigger] t.memory_set.areas@[i].start_vpn == start_vpn
                        && u.memory_set.areas@ == t.memory_set.areas@.remove(i)
                &&& r != 0 ==> r == -1 && final(self).tasks@ == old(self).tasks@
            }),
    {
        let c = self.processor.current.unwrap();
        let r = self.tasks[c].memory_set.remove_area_with_start_vpn(start_vpn);
        proof {
            Self::lemma_wf_statuses_kept(*old(self), *self);
            if r != 0 {
                assert(self.tasks@ =~= old(self).tasks@);
            }
        }
        r
    }
}

/// Grants the processor to the first task of the table, which has never run.
pub fn run_first_task(tm: &mut TaskManager, now: u64)
    requires
        old(tm).wf(),
        old(tm).tasks@.len() > 0,
        !old(tm).has_running(),
        old(tm).is_ready(0),
        old(tm).tasks@[0].start_time is None,
    ensures
        final(tm).wf(),
        TaskManager::granted_post(*old(tm), *final(tm), 0, now),
{
    tm.grant(0, now);
}

/// Suspends the current task, then grants the processor to the next one;
/// returns that task's position, or `None` when no task is Ready.
pub fn suspend_current_and_run_next(tm: &mut TaskManager, now: u64) -> (r: Option<usize>)
    requires
        old(tm).wf(),
        old(tm).processor.current is Some,
    ensures
        final(tm).wf(),
        exists|mid: TaskManager|
            TaskManager::released_post(*old(tm), mid, TaskStatus::Ready)
                && #[trigger] TaskManager::next_task_post(mid, *final(tm), now, r),
{
    tm.mark_current_suspended();
    let ghost mid = *tm;
    let r = tm.run_next_task(now);
    assert(TaskManager::next_task_post(mid, *tm, now, r));
    r
}

/// Ends the current task, then grants the processor to the next one;
/// returns that task's position, or `None` when no task is Ready.
pub fn exit_current_and_run_next(tm: &mut TaskManager, now: u64) -> (r: Option<usize>)
    requires
        old(tm).wf(),
        old(tm).processor.current is Some,
    ensures
        final(tm).wf(),
        exists|mid: TaskManager|
            TaskManager::released_post(*old(tm), mid, TaskStatus::Exited)
                && #[trigger] TaskManager::next_task_post(mid, *final(tm), now, r),
{
    tm.mark_current_exited();
    let ghost mid = *tm;
    let r = tm.run_next_task(now);
    assert(TaskManager::next_task_post(mid, *tm, now, r));
    r
}

/// The token of the current task's page table.
pub fn current_user_token(tm: &TaskManager) -> (r: usize)
    requires
        tm.wf(),
        tm.processor.current is Some,
    ensures
        r == tm.tasks@[tm.cur()].memory_set.token,
{
    let c = tm.processor.current.unwrap();
    tm.tasks[c].get_user_token()
}

/// The physical page of the current task's trap context.
pub fn current_trap_cx(tm: &TaskManager) -> (r: usize)
    requires
        tm.wf(),
        tm.processor.current is Some,
    ensures
        r == tm.tasks@[tm.cur()].trap_cx_ppn,
{
    let c = tm.processor.current.unwrap();
    tm.tasks[c].get_trap_cx_ppn()
}

/// Moves the current task's heap end; see
/// `TaskManager::change_current_program_brk`.
pub fn change_program_brk(tm: &mut TaskManager, size: i32) -> (r: Option<usize>)
    requires
        old(tm).wf(),
        old(tm).processor.current is Some,
    ensures
        final(tm).wf(),
        TaskManager::only_current_changed(*old(tm), *final(tm)),
        ({
            let t = old(tm).tasks@[old(tm).cur()];
            let new_brk = t.program_brk + size;
            if t.heap_bottom <= new_brk <= usize::MAX {
                &&& r == Some(t.program_brk)
                &&& final(tm).tasks@[old(tm).cur()] == (TaskControlBlock { program_brk: new_brk as usize, ..t })
            } else {
                r is None && final(tm).tasks@ == old(tm).tasks@
            }
        }),
{
    tm.change_current_program_brk(size)
}

/// Tells whether some page of `[start, end)` is mapped for the current task.
pub fn curr_vpnrange_exist_map(tm: &TaskManager, start: usize, end: usize) -> (r: bool)
    requires
        tm.wf(),
        tm.processor.current is Some,
    ensures
        r == tm.tasks@[tm.cur()].memory_set.any_mapped(start as int, end as int),
{
    tm.curr_vpnrange_exist_map(start, end)
}

/// Tells whether some page of `[start, end)` is not mapped for the current
/// task.
pub fn curr_vpnrange_exist_unmap(tm: &TaskManager, start: usize, end: usize) -> (r: bool)
    requires
        tm.wf(),
        tm.processor.current is Some,
    ensures
        r == !tm.tasks@[tm.cur()].memory_set.all_mapped(start as int, end as int),
{
    tm.curr_vpnrange_exist_unmap(start, end)
}

/// `mmap(start, len, port)` on the current task's address space (see
/// `MemorySet::mmap`): 0 on success, -1 and no change otherwise.
pub fn curr_mmap(tm: &mut TaskManager, start: usize, len: usize, port: usize) -> (r: isize)
    requires
        old(tm).wf(),
        old(tm).processor.current is Some,
    ensures
        final(tm).wf(),
        TaskManager::only_current_changed(*old(tm), *final(tm)),
        TaskManager::accounting_kept(*old(tm), *final(tm)),
        ({
            let t = old(tm).tasks@[old(tm).cur()];
            let u = final(tm).tasks@[old(tm).cur()];
            &&& u == (TaskControlBlock { memory_set: u.memory_set, ..t })
            &&& MemorySet::mmap_post(t.memory_set, u.memory_set, start as int, len as int, port as int, r)
        }),
{
    let c = tm.processor.current.unwrap();
    let r = tm.tasks[c].memory_set.mmap(start, len, port);
    proof {
        TaskManager::lemma_wf_statuses_kept(*old(tm), *tm);
    }
    r
}

/// `munmap(start, len)` on the current task's address space (see
/// `MemorySet::munmap`): 0 on success, -1 and no change otherwise.
pub fn curr_munmap(tm: &mut TaskManager, start: usize, len: usize) -> (r: isize)
    requires
        old(tm).wf(),
        old(tm).processor.current is Some,
    ensures
        final(tm).wf(),
        TaskManager::only_current_changed(*old(tm), *final(tm)),
        TaskManager::accounting_kept(*old(tm), *final(tm)),
        ({
            let t = old(tm).tasks@[old(tm).cur()];
            let u = final(tm).tasks@[old(tm).cur()];
            &&& u == (TaskControlBlock { memory_set: u.memory_set, ..t })
            &&& MemorySet::munmap_post(t.memory_set, u.memory_set, start as int, len as int, r)
        }),
{
    let c = tm.processor.current.unwrap();
    let r = tm.tasks[c].memory_set.munmap(start, len);
    proof {
        TaskManager::lemma_wf_statuses_kept(*old(tm), *tm);
    }
    r
}

} // verus!
