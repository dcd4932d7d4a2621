use os_task::manager::{
    change_program_brk, curr_mmap, curr_munmap, curr_vpnrange_exist_map,
    curr_vpnrange_exist_unmap, SchedPolicy, TaskManager,
};
use os_task::mm::{ceil_page, floor_page, init, MapArea, MapPermission, MemorySet, PAGE_SIZE};

fn running_task() -> TaskManager {
    let mut tm = TaskManager::new(SchedPolicy::Stride);
    tm.add_task(MemorySet::new_bare(7), 1, 2, 3, 0x8000);
    tm.run_next_task(0).unwrap();
    tm
}

fn mapped(tm: &TaskManager, vpn: usize) -> bool {
    tm.tasks[0].memory_set.vpn_ismap(vpn)
}

#[test]
fn page_rounding() {
    assert_eq!(floor_page(0), 0);
    assert_eq!(floor_page(4095), 0);
    assert_eq!(floor_page(4096), 1);
    assert_eq!(ceil_page(0), 0);
    assert_eq!(ceil_page(1), 1);
    assert_eq!(ceil_page(4096), 1);
    assert_eq!(ceil_page(4097), 2);
    assert_eq!(ceil_page(usize::MAX), usize::MAX / PAGE_SIZE + 1);
}

#[test]
fn permission_from_port() {
    assert_eq!(MapPermission::from_port(1), Some(MapPermission { bits: 2 | 16 }));
    assert_eq!(MapPermission::from_port(3), Some(MapPermission { bits: 22 }));
    assert_eq!(MapPermission::from_port(7), Some(MapPermission { bits: 30 }));
    assert_eq!(MapPermission::from_port(0), None);
    assert_eq!(MapPermission::from_port(8), None);
    assert_eq!(MapPermission::from_port(9), None);
}

#[test]
fn init_gives_an_empty_kernel_space() {
    let ms = init(0x8000_0000_0008_0000);
    assert_eq!(ms.token(), 0x8000_0000_0008_0000);
    assert!(ms.areas.is_empty());
    assert!(!ms.vpn_ismap(0));
}

#[test]
fn mmap_maps_every_page_of_the_range() {
    let mut tm = running_task();
    assert_eq!(curr_mmap(&mut tm, 0x1000_0000, 3 * PAGE_SIZE + 1, 3), 0);
    let base = 0x1000_0000 / PAGE_SIZE;
    for v in base..base + 4 {
        assert!(mapped(&tm, v));
    }
    assert!(!mapped(&tm, base - 1));
    assert!(!mapped(&tm, base + 4));
    assert_eq!(
        tm.tasks[0].memory_set.areas,
        vec![MapArea { start_vpn: base, end_vpn: base + 4, perm: MapPermission { bits: 22 } }]
    );
    assert!(curr_vpnrange_exist_map(&tm, base + 3, base + 10));
    assert!(!curr_vpnrange_exist_map(&tm, base + 4, base + 10));
    assert!(!curr_vpnrange_exist_unmap(&tm, base, base + 4));
    assert!(curr_vpnrange_exist_unmap(&tm, base, base + 5));
}

#[test]
fn mmap_rejects_bad_requests() {
    let mut tm = running_task();
    assert_eq!(curr_mmap(&mut tm, 0x1000_0001, PAGE_SIZE, 1), -1);
    assert_eq!(curr_mmap(&mut tm, 0x1000_0000, PAGE_SIZE, 0), -1);
    assert_eq!(curr_mmap(&mut tm, 0x1000_0000, PAGE_SIZE, 8), -1);
    assert_eq!(curr_mmap(&mut tm, 0x1000_0000, PAGE_SIZE, 0xf), -1);
    assert_eq!(curr_mmap(&mut tm, usize::MAX - PAGE_SIZE + 1, PAGE_SIZE, 1), -1);
    assert!(tm.tasks[0].memory_set.areas.is_empty());
}

#[test]
fn mmap_over_mapped_page_changes_nothing() {
    let mut tm = running_task();
    assert_eq!(curr_mmap(&mut tm, 0x2000_0000, 2 * PAGE_SIZE, 1), 0);
    let before = tm.tasks[0].memory_set.areas.clone();
    // Overlaps the last page of the existing area.
    assert_eq!(curr_mmap(&mut tm, 0x2000_0000 + PAGE_SIZE, 4 * PAGE_SIZE, 2), -1);
    // Ends inside the first page of the existing area.
    assert_eq!(curr_mmap(&mut tm, 0x2000_0000 - PAGE_SIZE, PAGE_SIZE + 1, 2), -1);
    assert_eq!(tm.tasks[0].memory_set.areas, before);
    assert!(!mapped(&tm, 0x2000_0000 / PAGE_SIZE + 2));
    // Right after it is fine.
    assert_eq!(curr_mmap(&mut tm, 0x2000_0000 + 2 * PAGE_SIZE, PAGE_SIZE, 2), 0);
}

#[test]
fn mmap_then_munmap_restores_the_space() {
    let mut tm = running_task();
    assert_eq!(curr_mmap(&mut tm, 0x3000_0000, PAGE_SIZE, 7), 0);
    let before = tm.tasks[0].memory_set.areas.clone();
    let probe: Vec<bool> = (0x2fff0..0x30010).map(|v| mapped(&tm, v)).collect();
    assert_eq!(curr_mmap(&mut tm, 0x3000_4000, 5000, 3), 0);
    assert_eq!(curr_munmap(&mut tm, 0x3000_4000, 5000), 0);
    assert_eq!(tm.tasks[0].memory_set.areas, before);
    let after: Vec<bool> = (0x2fff0..0x30010).map(|v| mapped(&tm, v)).collect();
    assert_eq!(probe, after);
}

#[test]
fn munmap_rejects_bad_requests() {
    let mut tm = running_task();
    assert_eq!(curr_mmap(&mut tm, 0x4000_0000, 4 * PAGE_SIZE, 1), 0);
    let before = tm.tasks[0].memory_set.areas.clone();
    // Unaligned.
    assert_eq!(curr_munmap(&mut tm, 0x4000_0010, PAGE_SIZE), -1);
    // Runs past the area.
    assert_eq!(curr_munmap(&mut tm, 0x4000_0000, 5 * PAGE_SIZE), -1);
    // Empty, and no area begins at its page: nothing to remove.
    assert_eq!(curr_munmap(&mut tm, 0x4000_0000 + PAGE_SIZE, 0), 0);
    // Empty and unaligned.
    assert_eq!(curr_munmap(&mut tm, 0x4000_0010, 0), -1);
    // Mapped, but no area begins there.
    assert_eq!(curr_munmap(&mut tm, 0x4000_0000 + PAGE_SIZE, PAGE_SIZE), -1);
    // Nothing mapped.
    assert_eq!(curr_munmap(&mut tm, 0x5000_0000, PAGE_SIZE), -1);
    assert_eq!(tm.tasks[0].memory_set.areas, before);
    // A prefix of the area removes the whole area.
    assert_eq!(curr_munmap(&mut tm, 0x4000_0000, PAGE_SIZE), 0);
    assert!(tm.tasks[0].memory_set.areas.is_empty());
}

#[test]
fn exit_empties_the_address_space() {
    let mut tm = running_task();
    assert_eq!(curr_mmap(&mut tm, 0x1000_0000, PAGE_SIZE, 1), 0);
    tm.mark_current_exited();
    assert!(tm.tasks[0].memory_set.areas.is_empty());
    assert_eq!(tm.tasks[0].memory_set.token, 7);
}

#[test]
fn program_break_moves_within_the_heap() {
    let mut tm = running_task();
    assert_eq!(change_program_brk(&mut tm, 0x100), Some(0x8000));
    assert_eq!(tm.tasks[0].program_brk, 0x8100);
    assert_eq!(change_program_brk(&mut tm, -0x80), Some(0x8100));
    assert_eq!(tm.tasks[0].program_brk, 0x8080);
    assert_eq!(change_program_brk(&mut tm, -0x81), None);
    assert_eq!(tm.tasks[0].program_brk, 0x8080);
    assert_eq!(change_program_brk(&mut tm, -0x80), Some(0x8080));
    assert_eq!(tm.tasks[0].program_brk, 0x8000);
}

#[test]
fn program_break_stops_at_the_top() {
    let mut tm = running_task();
    tm.tasks[0].program_brk = usize::MAX - 4;
    assert_eq!(change_program_brk(&mut tm, 5), None);
    assert_eq!(change_program_brk(&mut tm, 4), Some(usize::MAX - 4));
    assert_eq!(tm.tasks[0].program_brk, usize::MAX);
}

#[test]
fn mmap_of_empty_range_succeeds_and_maps_nothing() {
    let mut tm = running_task();
    assert_eq!(curr_mmap(&mut tm, 0x1000_0000, 0, 1), 0);
    assert!(tm.tasks[0].memory_set.areas.is_empty());
    assert!(!mapped(&tm, 0x1000_0000 / PAGE_SIZE));
    // Still checked: alignment and rights.
    assert_eq!(curr_mmap(&mut tm, 0x1000_0008, 0, 1), -1);
    assert_eq!(curr_mmap(&mut tm, 0x1000_0000, 0, 0), -1);
    // An empty range overlaps nothing, even at a mapped page.
    assert_eq!(curr_mmap(&mut tm, 0x1000_0000, PAGE_SIZE, 1), 0);
    assert_eq!(curr_mmap(&mut tm, 0x1000_0000, 0, 2), 0);
    assert_eq!(tm.tasks[0].memory_set.areas.len(), 1);
}

#[test]
fn munmap_of_empty_range_removes_area_at_its_page() {
    let mut tm = running_task();
    assert_eq!(curr_mmap(&mut tm, 0x4000_0000, 2 * PAGE_SIZE, 1), 0);
    assert_eq!(curr_mmap(&mut tm, 0x6000_0000, PAGE_SIZE, 1), 0);
    assert_eq!(curr_munmap(&mut tm, 0x4000_0000, 0), 0);
    assert!(!mapped(&tm, 0x4000_0000 / PAGE_SIZE));
    assert!(!mapped(&tm, 0x4000_0000 / PAGE_SIZE + 1));
    assert!(mapped(&tm, 0x6000_0000 / PAGE_SIZE));
    // Nothing begins there any more: succeeds and changes nothing.
    let before = tm.tasks[0].memory_set.areas.clone();
    assert_eq!(curr_munmap(&mut tm, 0x4000_0000, 0), 0);
    assert_eq!(tm.tasks[0].memory_set.areas, before);
}

#[test]
fn mmap_then_munmap_of_empty_range_round_trips() {
    let mut tm = running_task();
    assert_eq!(curr_mmap(&mut tm, 0x6000_0000, PAGE_SIZE, 1), 0);
    let before = tm.tasks[0].memory_set.areas.clone();
    assert_eq!(curr_mmap(&mut tm, 0x5000_0000, 0, 3), 0);
    assert_eq!(curr_munmap(&mut tm, 0x5000_0000, 0), 0);
    assert_eq!(tm.tasks[0].memory_set.areas, before);
}
