use deepx::idt::{IdtEntry, INTERRUPT_GATE, KERNEL_CODE_SELECTOR};
use deepx::meminfo::{get_memory_stats, MemoryMapEntry, MemoryRegionKind};
use deepx::paging::{
    get_or_create_table_static, MemoryMapper, PageTableEntry, PageTableFlags, TableRef, VirtAddr,
    HUGE_PAGE, NO_EXECUTE, PRESENT, USER_ACCESSIBLE, WRITABLE,
};
use deepx::pmm::{alloc_frame, free_frame, init_bitmap, plan_bitmap, reserve_page, unreserve_page};
use deepx::process::{Scheduler, Task, TaskState, INITIAL_FRAME_SIZE, NO_TASK, TASK_STACK_SIZE};

fn entry(base: u64, length: u64, kind: MemoryRegionKind) -> MemoryMapEntry {
    MemoryMapEntry { base, length, entry_type: kind }
}

#[test]
fn task_new_sets_stack_and_default_name() {
    let t = Task::new(7, 0xABC, None, 0x10000);
    assert_eq!(t.id, 7);
    assert_eq!(t.name, "task_0xabc");
    assert_eq!(t.stack_bottom, 0x10000);
    assert_eq!(t.stack_top, 0x10000 + TASK_STACK_SIZE);
    assert_eq!(t.stack_pointer, 0x10000 + TASK_STACK_SIZE - INITIAL_FRAME_SIZE);
    assert_eq!(t.state, TaskState::Ready);
    assert_eq!(t.sleep_until, 0);
    let named = Task::new(3, 1, Some("worker"), 0);
    assert_eq!(named.name, "worker");
    let k = Task::new_kernel_task();
    assert_eq!(k.id, 0);
    assert_eq!(k.name, "KernelTask");
    assert_eq!(k.state, TaskState::Running);
}

#[test]
fn scheduler_spawn_ids() {
    let mut s = Scheduler::new();
    assert_eq!(s.get_task_count(), 0);
    assert_eq!(s.get_cpu_tasks(), [NO_TASK; 8]);
    s.spawn(0x1000, Some("a"), Some(5), 0x100000);
    s.spawn(0x2000, Some("b"), Some(5), 0x200000);
    s.spawn(0x3000, None, None, 0x300000);
    let ids: Vec<u64> = s.get_tasks().iter().map(|t| t.id).collect();
    assert_eq!(ids, vec![5, 1, 2]);
    assert_eq!(s.get_tasks()[2].name, "task_0x3000");
    assert_eq!(s.generate_unique_id(Some(9)), 9);
    assert_eq!(s.generate_unique_id(Some(5)), 3);
}

#[test]
fn scheduler_remove_block_resume() {
    let mut s = Scheduler::new();
    s.add_task(Task::new_kernel_task());
    s.spawn(0x1000, Some("a"), Some(2), 0x100000);
    s.spawn(0x2000, Some("b"), Some(4), 0x200000);
    assert!(!s.remove_task(0));
    assert!(!s.remove_task(2));
    assert!(!s.remove_task(99));
    assert!(s.block_task(4));
    assert_eq!(s.get_tasks()[2].state, TaskState::Blocked);
    assert!(s.resume_task(4));
    assert_eq!(s.get_tasks()[2].state, TaskState::Ready);
    assert!(!s.block_task(99));
    assert!(s.remove_task(4));
    assert_eq!(s.get_task_count(), 2);
}

#[test]
fn scheduler_round_robin() {
    let mut s = Scheduler::new();
    assert!(s.schedule(0, 0).is_none());
    s.add_task(Task::new_kernel_task());
    s.spawn(0x1000, Some("a"), Some(10), 0x100000);
    s.spawn(0x2000, Some("b"), Some(11), 0x200000);
    let sw = s.schedule(0, 0).expect("switch");
    assert_eq!(sw.old_index, None);
    assert_eq!(sw.new_stack_pointer, 0x100000 + TASK_STACK_SIZE - INITIAL_FRAME_SIZE);
    assert_eq!(s.get_cpu_tasks()[0], 10);
    assert_eq!(s.get_tasks()[1].state, TaskState::Running);
    let sw = s.schedule(0, 0).expect("switch");
    assert_eq!(sw.old_index, Some(1));
    assert_eq!(s.get_cpu_tasks()[0], 11);
    assert_eq!(s.get_tasks()[1].state, TaskState::Ready);
    assert_eq!(s.get_tasks()[2].state, TaskState::Running);
    // Another CPU never picks the task that CPU 0 runs.
    let _ = s.schedule(1, 0).expect("switch");
    assert_eq!(s.get_cpu_tasks()[1], 10);
    assert_ne!(s.get_cpu_tasks()[0], s.get_cpu_tasks()[1]);
}

#[test]
fn scheduler_wakes_sleepers() {
    let mut s = Scheduler::new();
    s.spawn(0x1000, Some("sleepy"), Some(20), 0x100000);
    s.tasks[0].state = TaskState::Blocked;
    s.tasks[0].sleep_until = 500;
    assert!(s.schedule(0, 100).is_none());
    assert_eq!(s.get_tasks()[0].state, TaskState::Blocked);
    let sw = s.schedule(0, 500);
    assert!(sw.is_some());
    assert_eq!(s.get_tasks()[0].state, TaskState::Running);
    assert_eq!(s.get_tasks()[0].sleep_until, 0);
}

#[test]
fn frame_allocator_lowest_free_first() {
    let mut bitmap = [0u8; 2];
    reserve_page(&mut bitmap, 0);
    reserve_page(&mut bitmap, 4096 * 2 + 17);
    assert_eq!(bitmap, [0b0000_0101, 0]);
    assert_eq!(alloc_frame(&mut bitmap), Some(4096));
    assert_eq!(alloc_frame(&mut bitmap), Some(3 * 4096));
    free_frame(&mut bitmap, 4096);
    assert_eq!(alloc_frame(&mut bitmap), Some(4096));
    unreserve_page(&mut bitmap, 0);
    assert_eq!(bitmap[0] & 1, 0);
    // Pages past the end of the bitmap are left alone.
    reserve_page(&mut bitmap, 4096 * 100);
    assert_eq!(bitmap[1], 0);
}

#[test]
fn frame_allocator_full_bitmap() {
    let mut bitmap = [0xFFu8; 3];
    assert_eq!(alloc_frame(&mut bitmap), None);
    assert_eq!(bitmap, [0xFF; 3]);
}

#[test]
fn free_after_alloc_restores_bitmap() {
    let mut bitmap = [0b1011_1111u8, 0xFF];
    let before = bitmap;
    let a = alloc_frame(&mut bitmap).expect("one page is free");
    assert_eq!(a, 6 * 4096);
    free_frame(&mut bitmap, a);
    assert_eq!(bitmap, before);
}

#[test]
fn bitmap_plan_and_init() {
    let map = [
        entry(0, 0x1000, MemoryRegionKind::Reserved),
        entry(0x1000, 0x3000, MemoryRegionKind::Usable),
        entry(0x10000, 0x30000, MemoryRegionKind::Usable),
    ];
    let layout = plan_bitmap(&map).expect("layout");
    assert_eq!(layout.total_pages, 0x40);
    assert_eq!(layout.bitmap_size, 8);
    assert_eq!(layout.bitmap_addr, 0x1000);
    let mut bitmap = [0u8; 8];
    init_bitmap(&mut bitmap, &map, layout.bitmap_addr);
    // Page 0 reserved, page 1 holds the bitmap, pages 2..4 free, 4..16 absent.
    assert_eq!(bitmap[0], 0b1111_0011);
    assert_eq!(bitmap[1], 0xFF);
    assert_eq!(bitmap[2], 0x00);
    assert_eq!(bitmap[7], 0x00);
    let tiny = [entry(0, 0x100000, MemoryRegionKind::Reserved), entry(0x100000, 4, MemoryRegionKind::Usable)];
    assert!(plan_bitmap(&tiny).is_none());
}

#[test]
fn memory_stats_sum_per_kind() {
    let map = [
        entry(0, 0x1000, MemoryRegionKind::Reserved),
        entry(0x1000, 0x3000, MemoryRegionKind::Usable),
        entry(0x8000, 0x2000, MemoryRegionKind::Reserved),
        entry(0x10000, 0x30000, MemoryRegionKind::Usable),
        entry(0x40000, 0x5000, MemoryRegionKind::ExecutableAndModules),
        entry(0x50000, 0x7000, MemoryRegionKind::BootloaderReclaimable),
    ];
    let s = get_memory_stats(Some(&map)).expect("stats");
    assert_eq!(s.usable, 0x33000);
    assert_eq!(s.reserved, 0x3000);
    assert_eq!(s.reserved_count, 2);
    assert_eq!(s.kernel, 0x5000);
    assert_eq!(s.boot_reclaim, 0x7000);
    assert!(get_memory_stats(None).is_none());
}

#[test]
fn page_table_entry_read_after_write() {
    let mut e = PageTableEntry(0);
    let flags = PageTableFlags::from_bits_truncate(PRESENT | WRITABLE | NO_EXECUTE);
    e.set_addr(0x1234_5678, flags);
    assert_eq!(e.addr(), 0x1234_5000);
    assert_eq!(e.flags().bits(), PRESENT | WRITABLE | NO_EXECUTE);
    assert!(e.flags().contains(PageTableFlags::from_bits_truncate(PRESENT)));
    assert!(!e.flags().contains(PageTableFlags::from_bits_truncate(USER_ACCESSIBLE)));
    let u = PageTableFlags::empty().union(PageTableFlags::from_bits_truncate(0x7000_0000_0000_0004));
    assert_eq!(u.bits(), USER_ACCESSIBLE);
}

#[test]
fn virtual_address_indices() {
    let v = VirtAddr(0xffff_8000_1234_5678);
    assert_eq!(v.p4_index(), 256);
    assert_eq!(v.p3_index(), 0);
    assert_eq!(v.p2_index(), 0x91);
    assert_eq!(v.p1_index(), 0x145);
}

#[test]
fn table_lookup_or_creation() {
    let mut bitmap = [0b0000_0001u8];
    let mut e = PageTableEntry(0x5000 | PRESENT | WRITABLE);
    assert_eq!(get_or_create_table_static(&mut e, &mut bitmap), Some(TableRef::Existing(0x5000)));
    assert_eq!(e.0, 0x5000 | PRESENT | WRITABLE | USER_ACCESSIBLE);
    let mut absent = PageTableEntry(0);
    assert_eq!(get_or_create_table_static(&mut absent, &mut bitmap), Some(TableRef::Fresh(0x1000)));
    assert_eq!(absent.0, 0x1000 | PRESENT | WRITABLE | USER_ACCESSIBLE);
    assert_eq!(bitmap[0], 0b0000_0011);
    let mut huge = PageTableEntry(0x20_0000 | PRESENT | HUGE_PAGE);
    let mut full = [0xFFu8];
    assert_eq!(get_or_create_table_static(&mut huge, &mut full), None);
    assert_eq!(huge.0, 0x20_0000 | PRESENT | HUGE_PAGE);
}

#[test]
fn mapper_ranges() {
    let mut m = MemoryMapper::new();
    let flags = PageTableFlags::from_bits_truncate(PRESENT | WRITABLE);
    m.map_range(0x1800, 0x9000, 0x1000, flags);
    assert_eq!(m.requests.len(), 2);
    assert_eq!((m.requests[0].virt, m.requests[0].phys), (0x1000, 0x9000));
    assert_eq!((m.requests[1].virt, m.requests[1].phys), (0x2000, 0xA000));
    m.identity_map(0x3000, 1, flags);
    assert_eq!(m.requests.len(), 3);
    assert_eq!((m.requests[2].virt, m.requests[2].phys), (0x3000, 0x3000));
    m.map_to(VirtAddr(0x7000), 0x8000, flags);
    assert_eq!(m.requests[3].flags.bits(), PRESENT | WRITABLE);
}

#[test]
fn idt_handler_round_trip() {
    let mut e = IdtEntry::empty();
    e.set_ist(9);
    assert_eq!(e.ist, 1);
    let h: u64 = 0xffff_ffff_8012_3456;
    e.set_handler(h);
    assert_eq!(e.selector, KERNEL_CODE_SELECTOR);
    assert_eq!(e.flags, INTERRUPT_GATE);
    assert_eq!(e.ist, 0);
    let back = e.offset_low as u64 | (e.offset_mid as u64) << 16 | (e.offset_high as u64) << 32;
    assert_eq!(back, h);
}

#[test]
fn block_then_resume_restores_tasks() {
    let mut s = Scheduler::new();
    s.add_task(Task::new_kernel_task());
    s.spawn(0x1000, Some("a"), Some(6), 0x100000);
    s.spawn(0x2000, Some("b"), Some(7), 0x200000);
    let snapshot = |s: &Scheduler| -> Vec<(u64, String, TaskState, u64)> {
        s.get_tasks().iter().map(|t| (t.id, t.name.clone(), t.state, t.stack_pointer)).collect()
    };
    let before = snapshot(&s);
    assert!(s.block_task(7));
    assert_ne!(snapshot(&s), before);
    assert!(s.resume_task(7));
    assert_eq!(snapshot(&s), before);
}
