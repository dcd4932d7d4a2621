use os_task::config::{stride_increment, BIG_STRIDE, DEFAULT_PRIORITY};
use os_task::manager::{
    current_trap_cx, current_user_token, exit_current_and_run_next, run_first_task,
    suspend_current_and_run_next, SchedPolicy, TaskManager,
};
use os_task::mm::MemorySet;
use os_task::processor::{
    add_current_syscall_cnt, curr_set_priority, current_task, get_current_info,
    restore_current_task, take_current_task,
};
use os_task::task::{syscall_index, TaskStatus, MAX_SYSCALL_NUM};

fn table(n: usize, policy: SchedPolicy) -> TaskManager {
    let mut tm = TaskManager::new(policy);
    for i in 0..n {
        let ms = MemorySet::new_bare(0x8000_0000_0000_0000 + i);
        tm.add_task(ms, 0x1000 + i, 0x10_0000 * (i + 1), 0xdead_0000, 0x2_0000);
    }
    tm
}

/// Runs one round: dispatch, then suspend the task that got the processor.
fn round(tm: &mut TaskManager, now: u64) -> Option<usize> {
    let r = tm.run_next_task(now);
    if r.is_some() {
        tm.mark_current_suspended();
    }
    r
}

#[test]
fn new_tasks_are_ready_with_defaults() {
    let tm = table(3, SchedPolicy::Stride);
    assert_eq!(tm.processor.idle_task_cx.ra, 0);
    assert_eq!(tm.processor.idle_task_cx.sp, 0);
    assert_eq!(tm.processor.idle_task_cx.s, [0usize; 12]);
    assert_eq!(tm.num_app, 3);
    for i in 0..3 {
        let t = &tm.tasks[i];
        assert_eq!(t.id, i);
        assert_eq!(t.task_status, TaskStatus::Ready);
        assert_eq!(t.prior, DEFAULT_PRIORITY);
        assert_eq!(t.stride, 0);
        assert_eq!(t.start_time, None);
        assert!(t.syscall_times.iter().all(|&c| c == 0));
        assert_eq!(t.task_cx.ra, 0xdead_0000);
        assert_eq!(t.task_cx.sp, 0x10_0000 * (i + 1));
        assert_eq!(t.trap_cx_ppn, 0x1000 + i);
        assert_eq!(t.heap_bottom, 0x2_0000);
        assert_eq!(t.program_brk, 0x2_0000);
    }
    assert_eq!(tm.processor.current, None);
}

#[test]
fn stride_increment_values() {
    assert_eq!(stride_increment(2), BIG_STRIDE / 2);
    assert_eq!(stride_increment(16), 65536);
    assert_eq!(stride_increment(3), 349525);
    assert_eq!(stride_increment(BIG_STRIDE), 1);
}

#[test]
fn stride_scenario_priorities_2_4_4() {
    let mut tm = table(3, SchedPolicy::Stride);
    tm.tasks[0].prior = 2;
    tm.tasks[1].prior = 4;
    tm.tasks[2].prior = 4;
    let mut picks = Vec::new();
    for k in 0..6 {
        picks.push(round(&mut tm, k).unwrap());
    }
    // The priority-2 task advances by BIG_STRIDE / 2, twice as fast as the
    // others, so after its first grant it waits for both to catch up.
    assert_eq!(picks, vec![0, 1, 2, 1, 2, 0]);
    assert_eq!(picks[..3].iter().filter(|&&p| p == 0).count(), 1);
    let grants = |i: usize| picks.iter().filter(|&&p| p == i).count() as u64;
    for i in 0..3 {
        let p = tm.tasks[i].prior;
        assert_eq!(tm.tasks[i].stride, grants(i) * (BIG_STRIDE / p));
    }
    assert_eq!(tm.tasks[0].stride, BIG_STRIDE);
    assert_eq!(tm.tasks[1].stride, BIG_STRIDE / 2);
    assert_eq!(tm.tasks[2].stride, BIG_STRIDE / 2);
}

#[test]
fn stride_ties_go_to_lowest_position() {
    let mut tm = table(4, SchedPolicy::Stride);
    assert_eq!(tm.find_min_stride(), Some(0));
    tm.tasks[0].stride = 10;
    tm.tasks[2].stride = 5;
    tm.tasks[3].stride = 5;
    tm.tasks[1].task_status = TaskStatus::Exited;
    assert_eq!(tm.find_min_stride(), Some(2));
}

#[test]
fn stride_equal_priorities_stay_within_one_increment() {
    let mut tm = table(3, SchedPolicy::Stride);
    let inc = stride_increment(DEFAULT_PRIORITY);
    for k in 0..20 {
        round(&mut tm, k).unwrap();
        let max = tm.tasks.iter().map(|t| t.stride).max().unwrap();
        let min = tm.tasks.iter().map(|t| t.stride).min().unwrap();
        assert!(max - min <= inc);
    }
}

#[test]
fn stride_grows_by_one_increment_per_grant() {
    let mut tm = table(2, SchedPolicy::Stride);
    tm.tasks[1].prior = 5;
    for k in 0..10 {
        round(&mut tm, k).unwrap();
    }
    let inc0 = BIG_STRIDE / DEFAULT_PRIORITY;
    let inc1 = BIG_STRIDE / 5;
    assert_eq!(tm.tasks[0].stride % inc0, 0);
    assert_eq!(tm.tasks[1].stride % inc1, 0);
    assert_eq!(tm.tasks[0].stride / inc0 + tm.tasks[1].stride / inc1, 10);
}

#[test]
fn round_robin_scans_after_the_last_task() {
    let mut tm = table(3, SchedPolicy::RoundRobin);
    run_first_task(&mut tm, 1);
    assert_eq!(tm.tasks[0].task_status, TaskStatus::Running);
    assert_eq!(tm.processor.current, Some(0));
    assert_eq!(suspend_current_and_run_next(&mut tm, 2), Some(1));
    assert_eq!(suspend_current_and_run_next(&mut tm, 3), Some(2));
    assert_eq!(suspend_current_and_run_next(&mut tm, 4), Some(0));
    assert_eq!(exit_current_and_run_next(&mut tm, 5), Some(1));
    assert_eq!(suspend_current_and_run_next(&mut tm, 6), Some(2));
    assert_eq!(suspend_current_and_run_next(&mut tm, 7), Some(1));
    // Round robin leaves strides alone.
    assert!(tm.tasks.iter().all(|t| t.stride == 0));
}

#[test]
fn round_robin_returns_to_the_only_ready_task() {
    let mut tm = table(1, SchedPolicy::RoundRobin);
    run_first_task(&mut tm, 0);
    assert_eq!(suspend_current_and_run_next(&mut tm, 1), Some(0));
    assert_eq!(exit_current_and_run_next(&mut tm, 2), None);
}

#[test]
fn exited_task_is_never_selected_again() {
    let mut tm = table(2, SchedPolicy::Stride);
    assert_eq!(tm.run_next_task(0), Some(0));
    assert_eq!(exit_current_and_run_next(&mut tm, 1), Some(1));
    assert_eq!(tm.tasks[0].task_status, TaskStatus::Exited);
    for k in 2..10 {
        assert_eq!(suspend_current_and_run_next(&mut tm, k), Some(1));
    }
    assert_eq!(exit_current_and_run_next(&mut tm, 10), None);
    assert!(tm.tasks.iter().all(|t| t.task_status == TaskStatus::Exited));
    assert_eq!(tm.processor.current, None);
    assert_eq!(tm.run_next_task(11), None);
}

#[test]
fn at_most_one_task_runs() {
    let mut tm = table(4, SchedPolicy::Stride);
    tm.run_next_task(0).unwrap();
    for k in 1..30u64 {
        let running = tm.tasks.iter().filter(|t| t.task_status == TaskStatus::Running).count();
        assert_eq!(running, 1);
        let r = if k % 7 == 0 {
            exit_current_and_run_next(&mut tm, k)
        } else {
            suspend_current_and_run_next(&mut tm, k)
        };
        if r.is_none() {
            break;
        }
    }
    let running = tm.tasks.iter().filter(|t| t.task_status == TaskStatus::Running).count();
    assert!(running <= 1);
}

#[test]
fn start_time_is_set_on_first_run_only() {
    let mut tm = table(2, SchedPolicy::Stride);
    assert_eq!(tm.run_next_task(100), Some(0));
    assert_eq!(tm.tasks[0].start_time, Some(100));
    assert_eq!(suspend_current_and_run_next(&mut tm, 250), Some(1));
    assert_eq!(tm.tasks[1].start_time, Some(250));
    assert_eq!(suspend_current_and_run_next(&mut tm, 400), Some(0));
    assert_eq!(tm.tasks[0].start_time, Some(100));
    let info = get_current_info(&tm, 1000).unwrap();
    assert_eq!(info.time, 900);
    assert_eq!(info.status, TaskStatus::Running);
}

#[test]
fn info_time_never_negative() {
    let mut tm = table(1, SchedPolicy::Stride);
    tm.run_next_task(50).unwrap();
    assert_eq!(get_current_info(&tm, 10).unwrap().time, 0);
}

#[test]
fn syscall_counts_are_reported_by_number() {
    let mut tm = table(2, SchedPolicy::Stride);
    tm.run_next_task(0).unwrap();
    add_current_syscall_cnt(&mut tm, 64);
    add_current_syscall_cnt(&mut tm, 64);
    add_current_syscall_cnt(&mut tm, 410);
    add_current_syscall_cnt(&mut tm, 93);
    let info = get_current_info(&tm, 3).unwrap();
    assert_eq!(info.syscall_times.len(), MAX_SYSCALL_NUM);
    assert_eq!(info.syscall_times[64], 2);
    assert_eq!(info.syscall_times[410], 1);
    assert_eq!(info.syscall_times[93], 1);
    assert_eq!(info.syscall_times.iter().map(|&c| c as u64).sum::<u64>(), 4);
    // Other tasks' counters are untouched.
    assert!(tm.tasks[1].syscall_times.iter().all(|&c| c == 0));
}

#[test]
fn syscall_counter_saturates() {
    let mut tm = table(1, SchedPolicy::Stride);
    tm.run_next_task(0).unwrap();
    let k = syscall_index(124).unwrap();
    tm.tasks[0].syscall_times[k] = u32::MAX;
    add_current_syscall_cnt(&mut tm, 124);
    assert_eq!(tm.tasks[0].syscall_times[k], u32::MAX);
}

#[test]
fn syscall_index_table() {
    assert_eq!(syscall_index(35), Some(0));
    assert_eq!(syscall_index(64), Some(5));
    assert_eq!(syscall_index(410), Some(19));
    assert_eq!(syscall_index(0), None);
    assert_eq!(syscall_index(499), None);
}

#[test]
fn set_priority_zero_is_rejected() {
    let mut tm = table(1, SchedPolicy::Stride);
    tm.run_next_task(0).unwrap();
    assert_eq!(curr_set_priority(&mut tm, 0), -1);
    assert_eq!(tm.tasks[0].prior, DEFAULT_PRIORITY);
    assert_eq!(curr_set_priority(&mut tm, 1), -1);
    assert_eq!(curr_set_priority(&mut tm, -5), -1);
    assert_eq!(curr_set_priority(&mut tm, BIG_STRIDE as isize + 1), -1);
    assert_eq!(tm.tasks[0].prior, DEFAULT_PRIORITY);
}

#[test]
fn set_priority_changes_later_increments() {
    let mut tm = table(1, SchedPolicy::Stride);
    tm.run_next_task(0).unwrap();
    assert_eq!(tm.tasks[0].stride, BIG_STRIDE / DEFAULT_PRIORITY);
    assert_eq!(curr_set_priority(&mut tm, 2), 2);
    assert_eq!(tm.tasks[0].prior, 2);
    assert_eq!(suspend_current_and_run_next(&mut tm, 1), Some(0));
    assert_eq!(tm.tasks[0].stride, BIG_STRIDE / DEFAULT_PRIORITY + BIG_STRIDE / 2);
}

#[test]
fn take_and_restore_current() {
    let mut tm = table(2, SchedPolicy::Stride);
    tm.run_next_task(0).unwrap();
    assert_eq!(current_task(&tm), Some(0));
    let t = take_current_task(&mut tm);
    assert_eq!(t, Some(0));
    assert_eq!(current_task(&tm), None);
    assert_eq!(tm.tasks[0].task_status, TaskStatus::Running);
    restore_current_task(&mut tm, 0);
    assert_eq!(current_task(&tm), Some(0));
}

#[test]
fn current_token_and_trap_context() {
    let mut tm = table(3, SchedPolicy::Stride);
    tm.tasks[0].stride = 100;
    assert_eq!(tm.run_next_task(0), Some(1));
    assert_eq!(current_user_token(&tm), 0x8000_0000_0000_0001);
    assert_eq!(current_trap_cx(&tm), 0x1001);
}
