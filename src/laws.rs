//! Properties that hold across the operations of the scheduler and of the
//! address space, proved from their contracts.
use vstd::prelude::*;
use crate::config::{stride_inc, MAX_PRIORITY, MIN_PRIORITY};
use crate::manager::{SchedPolicy, TaskManager};
use crate::mm::{page_ceil, page_floor, MemorySet, PAGE_SIZE};
use crate::task::{TaskControlBlock, TaskStatus};

verus! {

/// At most one task is Running in any well-formed task table, and every
/// operation of `TaskManager` keeps the table well formed; so no sequence of
/// suspends, exits and dispatches ever has two tasks running.
pub proof fn lemma_at_most_one_running(tm: TaskManager, i: int, j: int)
    requires
        tm.wf(),
        tm.is_running(i),
        tm.is_running(j),
    ensures
        i == j,
{
}

/// An Exited task is never picked by `run_next_task`, and stays Exited
/// through it.
pub proof fn lemma_exited_never_dispatched(pre: TaskManager, post: TaskManager, now: u64, r: Option<usize>, i: int)
    requires
        0 <= i < pre.len(),
        pre.tasks@[i].task_status == TaskStatus::Exited,
        TaskManager::next_task_post(pre, post, now, r),
    ensures
        r is Some ==> r->0 != i,
        post.tasks@[i].task_status == TaskStatus::Exited,
{
    if r is Some {
        let c = r->0 as int;
        assert(pre.is_ready(c)) by {
            assert(pre.is_choice(c));
        }
    }
}

/// An Exited task stays Exited when the current task suspends or exits,
/// so an exit is final across any sequence of suspends, exits and
/// dispatches.
pub proof fn lemma_exited_stays_exited(pre: TaskManager, post: TaskManager, status: TaskStatus, i: int)
    requires
        pre.wf(),
        pre.processor.current is Some,
        0 <= i < pre.len(),
        pre.tasks@[i].task_status == TaskStatus::Exited,
        TaskManager::released_post(pre, post, status),
    ensures
        post.tasks@[i].task_status == TaskStatus::Exited,
{
    assert(pre.is_running(pre.cur()));
    assert(i != pre.cur());
}

/// How many entries of `grants` are true.
pub open spec fn count_grants(grants: Seq<bool>) -> nat
    decreases grants.len(),
{
    if grants.len() == 0 {
        0
    } else {
        count_grants(grants.drop_last()) + if grants.last() {
            1nat
        } else {
            0nat
        }
    }
}

/// A task whose successive states are `trace`, granted a quantum under the
/// stride policy at step `k` exactly when `grants[k]` and keeping its
/// priority and stride otherwise, ends with stride
/// `count * (BIG_STRIDE / priority)` when it started from 0, whatever the
/// other tasks did in between (while that product fits the counter).
pub proof fn lemma_stride_after_grants(trace: Seq<TaskControlBlock>, grants: Seq<bool>)
    requires
        trace.len() == grants.len() + 1,
        trace[0].stride == 0,
        forall|k: int|
            0 <= k < grants.len() ==> if #[trigger] grants[k] {
                TaskControlBlock::stride_granted(trace[k], trace[k + 1])
            } else {
                TaskControlBlock::stride_kept(trace[k], trace[k + 1])
            },
        count_grants(grants) * stride_inc(trace[0].prior) <= u64::MAX,
    ensures
        trace.last().prior == trace[0].prior,
        trace.last().stride == count_grants(grants) * stride_inc(trace[0].prior),
    decreases grants.len(),
{
    if grants.len() > 0 {
        let n = grants.len() - 1;
        let t = trace.drop_last();
        let g = grants.drop_last();
        assert forall|k: int| 0 <= k < g.len() implies if #[trigger] g[k] {
            TaskControlBlock::stride_granted(t[k], t[k + 1])
        } else {
            TaskControlBlock::stride_kept(t[k], t[k + 1])
        } by {
            assert(grants[k] == g[k]);
            assert(t[k] == trace[k] && t[k + 1] == trace[k + 1]);
        }
        let inc = stride_inc(trace[0].prior) as int;
        let c = count_grants(g) as int;
        assert(c * inc <= count_grants(grants) * inc) by (nonlinear_arith)
            requires
                c <= count_grants(grants),
                inc >= 0,
        ;
        lemma_stride_after_grants(t, g);
        assert(t[0] == trace[0]);
        assert(t.last() == trace[n]);
        assert(trace.last() == trace[n + 1]);
        assert(trace[n].stride == c * inc);
        assert(grants[n] == grants.last());
        if grants[n] {
            assert(TaskControlBlock::stride_granted(trace[n], trace[n + 1]));
            assert((c + 1) * inc == c * inc + inc) by (nonlinear_arith);
            assert(count_grants(grants) == c + 1);
            assert(c * inc + inc <= u64::MAX);
            assert(trace[n + 1].stride == c * inc + inc);
        } else {
            assert(TaskControlBlock::stride_kept(trace[n], trace[n + 1]));
            assert(count_grants(grants) == c);
        }
    } else {
        assert(trace.last() == trace[0]);
        assert(count_grants(grants) == 0);
    }
}

/// Every two tasks' strides differ by at most `d`.
pub open spec fn strides_within(tm: TaskManager, d: int) -> bool {
    forall|i: int, j: int|
        0 <= i < tm.len() && 0 <= j < tm.len() ==> #[trigger] tm.tasks@[i].stride - #[trigger] tm.tasks@[j].stride <= d
}

/// Every task of `tm` has priority `p`.
pub open spec fn same_priority(tm: TaskManager, p: u64) -> bool {
    forall|i: int| 0 <= i < tm.len() ==> (#[trigger] tm.tasks@[i]).prior == p
}

/// Every task of `tm` has room for one more increment `BIG_STRIDE / p`.
pub open spec fn stride_room(tm: TaskManager, p: u64) -> bool {
    forall|i: int| 0 <= i < tm.len() ==> (#[trigger] tm.tasks@[i]).stride + stride_inc(p) <= u64::MAX
}

/// Every task of `tm` is Ready.
pub open spec fn all_ready(tm: TaskManager) -> bool {
    forall|i: int| 0 <= i < tm.len() ==> #[trigger] tm.is_ready(i)
}

/// One step of a fairness window: a stride-policy dispatch while every task
/// is Ready, or an operation that keeps every task's accounting.
pub open spec fn fair_step(pre: TaskManager, post: TaskManager) -> bool {
    ||| pre.policy == SchedPolicy::Stride && all_ready(pre) && exists|now: u64, r: Option<usize>|
        #[trigger] TaskManager::next_task_post(pre, post, now, r)
    ||| TaskManager::accounting_kept(pre, post)
}

proof fn lemma_fair_step(pre: TaskManager, post: TaskManager, p: u64)
    requires
        MIN_PRIORITY <= p <= MAX_PRIORITY,
        fair_step(pre, post),
        same_priority(pre, p),
        stride_room(pre, p),
        strides_within(pre, stride_inc(p) as int),
    ensures
        post.len() == pre.len(),
        strides_within(post, stride_inc(p) as int),
        same_priority(post, p),
{
    let d = stride_inc(p) as int;
    if TaskManager::accounting_kept(pre, post) {
        assert forall|i: int, j: int|
            0 <= i < post.len() && 0 <= j < post.len() implies #[trigger] post.tasks@[i].stride
                - #[trigger] post.tasks@[j].stride <= d by {
            assert(TaskControlBlock::stride_kept(pre.tasks@[i], post.tasks@[i]));
            assert(TaskControlBlock::stride_kept(pre.tasks@[j], post.tasks@[j]));
            assert(pre.tasks@[i].stride - pre.tasks@[j].stride <= d);
        }
        assert forall|i: int| 0 <= i < post.len() implies (#[trigger] post.tasks@[i]).prior == p by {
            assert(TaskControlBlock::stride_kept(pre.tasks@[i], post.tasks@[i]));
            assert(pre.tasks@[i].prior == p);
        }
    } else {
        let (now, r) = choose|now: u64, r: Option<usize>| #[trigger] TaskManager::next_task_post(pre, post, now, r);
        assert(TaskManager::next_task_post(pre, post, now, r));
        if r is Some {
            let c = r->0 as int;
            assert(pre.is_stride_choice(c));
            let m = pre.tasks@[c].stride;
            assert(pre.tasks@[c].prior == p);
            assert(post.tasks@[c].stride == m + d);
            assert forall|i: int| 0 <= i < post.len() && i != c implies post.tasks@[i] == pre.tasks@[i] by {
            }
            assert forall|i: int| 0 <= i < pre.len() implies m <= #[trigger] pre.tasks@[i].stride by {
                assert(pre.is_ready(i));
            }
            assert forall|i: int, j: int|
                0 <= i < post.len() && 0 <= j < post.len() implies #[trigger] post.tasks@[i].stride
                    - #[trigger] post.tasks@[j].stride <= d by {
                assert(pre.tasks@[i].stride - pre.tasks@[j].stride <= d);
                assert(pre.tasks@[i].stride - pre.tasks@[c].stride <= d);
                assert(m <= pre.tasks@[j].stride);
            }
            assert forall|i: int| 0 <= i < post.len() implies (#[trigger] post.tasks@[i]).prior == p by {
                assert(pre.tasks@[i].prior == p);
            }
        } else {
            assert forall|i: int| 0 <= i < post.len() implies (#[trigger] post.tasks@[i]).prior == p by {
                assert(pre.tasks@[i].prior == p);
            }
        }
    }
}

/// Over a window in which every task has the same priority `p`, dispatches
/// follow the stride policy while all tasks are Ready, and every other step
/// keeps the accounting, any two tasks' strides stay within one increment
/// `BIG_STRIDE / p` of each other, once they start so (as they do from
/// creation, all at 0); strides are assumed not to reach the counter's
/// limit.
pub proof fn lemma_stride_fairness(trace: Seq<TaskManager>, p: u64)
    requires
        trace.len() >= 1,
        MIN_PRIORITY <= p <= MAX_PRIORITY,
        strides_within(trace[0], stride_inc(p) as int),
        same_priority(trace[0], p),
        forall|k: int| 0 <= k < trace.len() ==> stride_room(#[trigger] trace[k], p),
        forall|k: int| 0 <= k < trace.len() - 1 ==> fair_step(#[trigger] trace[k], trace[k + 1]),
    ensures
        forall|k: int| 0 <= k < trace.len() ==> strides_within(#[trigger] trace[k], stride_inc(p) as int),
{
    assert forall|k: int| 0 <= k < trace.len() implies strides_within(#[trigger] trace[k], stride_inc(p) as int) by {
        lemma_fair_prefix(trace, p, k);
    }
}

proof fn lemma_fair_prefix(trace: Seq<TaskManager>, p: u64, k: int)
    requires
        0 <= k < trace.len(),
        MIN_PRIORITY <= p <= MAX_PRIORITY,
        strides_within(trace[0], stride_inc(p) as int),
        same_priority(trace[0], p),
        forall|k: int| 0 <= k < trace.len() ==> stride_room(#[trigger] trace[k], p),
        forall|k: int| 0 <= k < trace.len() - 1 ==> fair_step(#[trigger] trace[k], trace[k + 1]),
    ensures
        same_priority(trace[k], p),
        strides_within(trace[k], stride_inc(p) as int),
    decreases k,
{
    if k > 0 {
        lemma_fair_prefix(trace, p, k - 1);
        assert(fair_step(trace[k - 1], trace[k]));
        assert(stride_room(trace[k - 1], p));
        lemma_fair_step(trace[k - 1], trace[k], p);
    }
}

/// `trace` moves a task's start time as the grants in `grants` say: set
/// to `nows[k]` if unset when `grants[k]`, kept otherwise.
pub open spec fn start_steps(trace: Seq<TaskControlBlock>, grants: Seq<bool>, nows: Seq<u64>) -> bool {
    &&& trace.len() == grants.len() + 1
    &&& nows.len() == grants.len()
    &&& forall|k: int|
        0 <= k < grants.len() ==> if #[trigger] grants[k] {
            TaskControlBlock::start_granted(trace[k], trace[k + 1], nows[k])
        } else {
            TaskControlBlock::start_kept(trace[k], trace[k + 1])
        }
}

/// A task whose successive states are `trace`, entering Running at step `k`
/// (clock reading `nows[k]`) exactly when `grants[k]` and keeping its start
/// time otherwise, gets its start time at its first Running transition and
/// never again: an unset start time becomes `nows[k]` on a grant and stays
/// unset otherwise, and a set one never changes.
pub proof fn lemma_start_time_set_once(trace: Seq<TaskControlBlock>, grants: Seq<bool>, nows: Seq<u64>)
    requires
        start_steps(trace, grants, nows),
    ensures
        forall|k: int|
            0 <= k < grants.len() && trace[k].start_time is None ==> trace[k + 1].start_time == if #[trigger] grants[k] {
                Some(nows[k])
            } else {
                None
            },
        forall|k1: int, k2: int|
            0 <= k1 <= k2 < trace.len() && (#[trigger] trace[k1]).start_time is Some
                ==> (#[trigger] trace[k2]).start_time == trace[k1].start_time,
{
    assert forall|k: int|
        0 <= k < grants.len() && trace[k].start_time is None implies trace[k + 1].start_time == if #[trigger] grants[k] {
            Some(nows[k])
        } else {
            None
        } by {
        lemma_start_step(trace, grants, nows, k);
    }
    assert forall|k1: int, k2: int|
        0 <= k1 <= k2 < trace.len() && (#[trigger] trace[k1]).start_time is Some
            implies (#[trigger] trace[k2]).start_time == trace[k1].start_time by {
        lemma_start_kept_from(trace, grants, nows, k1, k2);
    }
}

proof fn lemma_start_step(trace: Seq<TaskControlBlock>, grants: Seq<bool>, nows: Seq<u64>, k: int)
    requires
        start_steps(trace, grants, nows),
        0 <= k < grants.len(),
    ensures
        trace[k].start_time is Some ==> trace[k + 1].start_time == trace[k].start_time,
        trace[k].start_time is None ==> trace[k + 1].start_time == if grants[k] {
            Some(nows[k])
        } else {
            None
        },
{
    if grants[k] {
        assert(TaskControlBlock::start_granted(trace[k], trace[k + 1], nows[k]));
    } else {
        assert(TaskControlBlock::start_kept(trace[k], trace[k + 1]));
    }
}

proof fn lemma_start_kept_from(trace: Seq<TaskControlBlock>, grants: Seq<bool>, nows: Seq<u64>, k1: int, k2: int)
    requires
        start_steps(trace, grants, nows),
        0 <= k1 <= k2 < trace.len(),
        trace[k1].start_time is Some,
    ensures
        trace[k2].start_time == trace[k1].start_time,
    decreases k2 - k1,
{
    if k2 > k1 {
        lemma_start_kept_from(trace, grants, nows, k1, k2 - 1);
        lemma_start_step(trace, grants, nows, k2 - 1);
    }
}

/// `mmap` of a range followed by `munmap` of the same range succeeds and
/// gives back the address space as it was, every page mapped or unmapped as
/// before. An empty range maps nothing, while `munmap` of it removes an area
/// that already began at its page; that one case is left out.
pub proof fn lemma_mmap_munmap_round_trip(
    m0: MemorySet,
    m1: MemorySet,
    m2: MemorySet,
    start: int,
    len: int,
    port: int,
    r: isize,
)
    requires
        m0.wf(),
        0 <= start,
        0 <= len,
        len > 0 || !m0.has_area_at(page_floor(start)),
        MemorySet::mmap_post(m0, m1, start, len, port, 0),
        MemorySet::munmap_post(m1, m2, start, len, r),
    ensures
        r == 0,
        m2.token == m0.token,
        m2.areas@ == m0.areas@,
        forall|v: int| #[trigger] m2.is_mapped(v) == m0.is_mapped(v),
{
    if len == 0 {
        assert(m0.mmap_accepts(start, len, port));
        assert(m1 == m0);
        assert(m1.munmap_accepts(start, len));
    } else {
        let s = page_floor(start);
        let e = page_ceil(start + len);
        let a = MemorySet::mmap_area(start, len, port);
        let n = m0.areas@.len() as int;
        assert(m0.mmap_accepts(start, len, port));
        assert(0 <= s < e <= usize::MAX) by (nonlinear_arith)
            requires
                s == page_floor(start),
                e == page_ceil(start + len),
                start % 4096 == 0,
                0 <= start,
                len > 0,
                start + len <= usize::MAX,
                PAGE_SIZE == 4096,
        ;
        assert(m1.areas@[n] == a);
        assert forall|v: int| s <= v < e implies #[trigger] m1.is_mapped(v) by {
            assert(m1.areas@[n].contains(v));
        }
        assert(m1.has_area_at(s)) by {
            assert(m1.areas@[n].start_vpn == s);
        }
        assert(m1.munmap_accepts(start, len));
        let i = choose|i: int|
            0 <= i < m1.areas@.len() && #[trigger] m1.areas@[i].start_vpn == page_floor(start)
                && m2.areas@ == m1.areas@.remove(i);
        if i < n {
            assert(m1.areas@[i] == m0.areas@[i]);
            assert(m0.areas@[i].start_vpn < m0.areas@[i].end_vpn);
            assert(m0.areas@[i].contains(s));
            assert(m0.is_mapped(s));
        }
        assert(m2.areas@ =~= m0.areas@);
    }
}

/// `mmap` over a range holding an already-mapped page fails and leaves the
/// address space as it was.
pub proof fn lemma_mmap_over_mapped_fails(
    m0: MemorySet,
    m1: MemorySet,
    start: int,
    len: int,
    port: int,
    r: isize,
    v: int,
)
    requires
        MemorySet::mmap_post(m0, m1, start, len, port, r),
        page_floor(start) <= v < page_ceil(start + len),
        m0.is_mapped(v),
    ensures
        r == -1,
        m1 == m0,
{
}

} // verus!
