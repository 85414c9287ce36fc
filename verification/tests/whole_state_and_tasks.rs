use deepx::dispatch::dispatch;
use deepx::keyboard::scancode_to_char;
use deepx::kernel_shell::{edit_line, line_is_safe, KernelShell};
use deepx::paging::{MemoryMapper, PageTableFlags, PRESENT, WRITABLE};
use deepx::process::{initial_stack_frame, Scheduler, Task, INITIAL_FRAME_SIZE, TASK_STACK_SIZE};
use deepx::ring_buffer::{push_line, push_u32, RingBuffer, LOG_BUFFER_SIZE};
use deepx::shell::{command_kill, CommandResult, SystemInfo};
use deepx::cpuinfo::{CpuFeatures, CpuInfo};
use deepx::timer::{calibration_wait_step, TickWait, CALIBRATION_SPIN_LIMIT};

fn same(a: &RingBuffer, b: &RingBuffer) -> bool {
    a.get_pos() == b.get_pos() && a.is_wrapped() == b.is_wrapped() && a.get_buf() == b.get_buf()
}

fn nearly_full() -> RingBuffer {
    let mut rb = RingBuffer::new();
    let chunk = vec![b'x'; LOG_BUFFER_SIZE - 3];
    rb.push_bytes(&chunk);
    rb
}

fn sys() -> SystemInfo {
    SystemInfo {
        cpu: CpuInfo {
            vendor: "GenuineIntel",
            brand: [b' '; 48],
            cores: 1,
            threads: 1,
            features: CpuFeatures { sse: true, sse2: true, avx: false, nx: true, htt: false },
            temp_support: false,
        },
        mem: None,
        uptime: (0, 0),
    }
}

fn scheduler() -> Scheduler {
    let mut s = Scheduler::new();
    s.add_task(Task::new_kernel_task());
    s.add_task(Task::new(1, 0x1000, None, 0x10000));
    s.add_task(Task::new(2, 0x2000, None, 0x20000));
    s.add_task(Task::new(4, 0x3000, None, 0x40000));
    s.add_task(Task::new(6, 0x4000, None, 0));
    s
}

#[test]
fn push_str_and_push_bytes_leave_equal_buffers_across_a_wrap() {
    let mut a = nearly_full();
    let mut b = nearly_full();
    a.push_str("hello world");
    b.push_bytes(b"hello world");
    assert!(same(&a, &b));
    assert!(a.is_wrapped());
    assert_eq!(a.get_pos(), 8);
    assert_eq!(&a.get_buf()[..8], b"lo world");
    assert_eq!(&a.get_buf()[LOG_BUFFER_SIZE - 3..], b"hel");
}

#[test]
fn push_line_is_the_text_then_one_newline() {
    let mut a = nearly_full();
    let mut b = nearly_full();
    push_line(&mut a, "abc");
    b.push_str("abc");
    b.push_bytes(b"\n");
    assert!(same(&a, &b));
    assert_eq!(a.get_pos(), 1);
    assert_eq!(a.get_buf()[0], b'\n');
    assert_eq!(&a.get_buf()[LOG_BUFFER_SIZE - 3..], b"abc");
}

#[test]
fn push_u32_writes_the_digits_at_the_write_position() {
    let mut a = RingBuffer::new();
    push_u32(&mut a, 1203);
    assert_eq!(a.get_pos(), 4);
    assert_eq!(&a.get_buf()[..5], b"1203\0");
    let mut b = RingBuffer::new();
    push_u32(&mut b, u32::MAX);
    assert_eq!(b.get_pos(), 10);
    assert_eq!(&b.get_buf()[..10], b"4294967295");
    let mut c = RingBuffer::new();
    push_u32(&mut c, 0);
    assert_eq!(c.get_pos(), 1);
    assert_eq!(c.get_buf()[0], b'0');
}

#[test]
fn pop_after_a_wrap_steps_back_to_the_end() {
    let mut rb = RingBuffer::new();
    rb.push_bytes(&vec![b'y'; LOG_BUFFER_SIZE]);
    assert_eq!(rb.get_pos(), 0);
    assert!(rb.is_wrapped());
    rb.pop();
    assert_eq!(rb.get_pos(), LOG_BUFFER_SIZE - 1);
    assert!(rb.is_wrapped());
    assert_eq!(rb.get_buf()[LOG_BUFFER_SIZE - 1], 0);
    assert_eq!(rb.get_buf()[LOG_BUFFER_SIZE - 2], b'y');
    let mut empty = RingBuffer::new();
    empty.pop();
    assert_eq!(empty.get_pos(), 0);
    assert!(!empty.is_wrapped());
}

#[test]
fn blank_line_leaves_the_whole_log_alone() {
    let mut log = nearly_full();
    let before = nearly_full();
    let mut s = scheduler();
    assert_eq!(dispatch("  \t ", &mut log, &mut s, &sys(), None), CommandResult::Nothing);
    assert!(same(&log, &before));
    assert_eq!(dispatch("", &mut log, &mut s, &sys(), None), CommandResult::Nothing);
    assert!(same(&log, &before));
}

#[test]
fn backspace_in_the_shell_pops_one_byte() {
    let shell = KernelShell::new();
    let mut log = nearly_full();
    let mut expected = nearly_full();
    let mut s = scheduler();
    let mut input = String::new();
    shell.handle_char('a', &mut input, &mut log, &mut s, &sys(), None);
    expected.push_str("a");
    shell.handle_char('\x08', &mut input, &mut log, &mut s, &sys(), None);
    expected.pop();
    assert!(same(&log, &expected));
    assert_eq!(input, "");
    shell.handle_char('\x08', &mut input, &mut log, &mut s, &sys(), None);
    assert!(same(&log, &expected));
}

#[test]
fn edit_line_without_echo() {
    let mut line = String::from("ab");
    edit_line('c', &mut line);
    assert_eq!(line, "abc");
    edit_line('\x08', &mut line);
    edit_line('\x08', &mut line);
    assert_eq!(line, "a");
    edit_line('\x08', &mut line);
    edit_line('\x08', &mut line);
    assert_eq!(line, "");
}

#[test]
fn initial_frame_is_six_zeros_then_the_entry_point() {
    let f = initial_stack_frame(0xDEAD_BEEF);
    assert_eq!(f, [0, 0, 0, 0, 0, 0, 0xDEAD_BEEF]);
    assert_eq!(f.len() as u64 * 8, INITIAL_FRAME_SIZE);
    let t = Task::new(3, 0xDEAD_BEEF, None, 0x8000);
    assert_eq!(t.stack_pointer + INITIAL_FRAME_SIZE, t.stack_top);
    assert_eq!(t.stack_top, 0x8000 + TASK_STACK_SIZE);
}

#[test]
fn removed_tasks_release_their_stacks() {
    let mut s = scheduler();
    assert!(s.take_released_stacks().is_empty());
    assert!(s.remove_task(4));
    assert!(!s.remove_task(2));
    assert!(!s.remove_task(9));
    assert!(s.remove_task(6));
    assert_eq!(s.take_released_stacks(), vec![0x40000]);
    assert!(s.take_released_stacks().is_empty());
    let mut s = scheduler();
    let t = s.take_task(1).expect("task 1");
    assert_eq!(t.id, 1);
    assert_eq!(t.stack_bottom, 0x10000);
    assert_eq!(s.get_task_count(), 4);
    assert_eq!(s.take_released_stacks(), vec![0x10000]);
    assert!(s.take_task(0).is_none());
}

#[test]
fn kill_releases_the_stack_of_the_killed_task() {
    let mut s = scheduler();
    let mut log = RingBuffer::new();
    command_kill(&mut log, &["4"], &mut s);
    assert_eq!(s.take_released_stacks(), vec![0x40000]);
    let mut log = RingBuffer::new();
    assert_eq!(dispatch("kill 1", &mut log, &mut s, &sys(), None), CommandResult::Nothing);
    assert_eq!(s.take_released_stacks(), vec![0x10000]);
    assert_eq!(dispatch("kill 2", &mut log, &mut s, &sys(), None), CommandResult::Nothing);
    assert!(s.take_released_stacks().is_empty());
}

#[test]
fn task_count_follows_adds_and_removals() {
    let mut s = Scheduler::new();
    assert_eq!(s.get_task_count(), 0);
    s.add_task(Task::new_kernel_task());
    assert_eq!(s.get_task_count(), 1);
    s.spawn(0x5000, None, Some(7), 0x50000);
    assert_eq!(s.get_task_count(), 2);
    let last = s.get_tasks().back().expect("spawned");
    assert_eq!(last.stack_top, 0x50000 + TASK_STACK_SIZE);
    assert_eq!(last.sleep_until, 0);
    assert!(s.block_task(7));
    assert!(s.resume_task(7));
    assert!(!s.remove_task(0));
    assert_eq!(s.get_task_count(), 2);
    assert!(s.remove_task(7));
    assert_eq!(s.get_task_count(), 1);
}

#[test]
fn range_mapping_with_a_high_start_and_a_frame_above_4_gib() {
    let flags = PageTableFlags::from_bits_truncate(PRESENT | WRITABLE);
    assert!(MemoryMapper::range_fits(0xFFFF_8000_0000_0000, 0x1_2345_6000, 0x1000));
    let mut m = MemoryMapper::new();
    m.map_range(0xFFFF_8000_0000_0000, 0x1_2345_6000, 0x1000, flags);
    assert_eq!(m.requests.len(), 1);
    assert_eq!(m.requests[0].virt, 0xFFFF_8000_0000_0000);
    assert_eq!(m.requests[0].phys, 0x1_2345_6000);
    assert!(!MemoryMapper::range_fits(u64::MAX - 10, 0, 100));
    assert!(!MemoryMapper::range_fits(0, u64::MAX - 100, 0x2000));
    assert!(MemoryMapper::range_fits(0, 0xFFFF_FFFF_FFFF_D000, 0x2000));
}

#[test]
fn calibration_wait_counts_spins_up_to_the_limit() {
    assert_eq!(calibration_wait_step(0, true), TickWait::Ticked);
    assert_eq!(calibration_wait_step(0, false), TickWait::Spin(1));
    assert_eq!(calibration_wait_step(CALIBRATION_SPIN_LIMIT - 1, false), TickWait::Spin(CALIBRATION_SPIN_LIMIT));
    assert_eq!(calibration_wait_step(CALIBRATION_SPIN_LIMIT, false), TickWait::TimedOut);
    assert_eq!(calibration_wait_step(CALIBRATION_SPIN_LIMIT, true), TickWait::Ticked);
}

#[test]
fn scan_codes_type_the_us_layout() {
    assert_eq!(scancode_to_char(0x02), Some('1'));
    assert_eq!(scancode_to_char(0x0B), Some('0'));
    assert_eq!(scancode_to_char(0x0D), Some('='));
    assert_eq!(scancode_to_char(0x0E), Some('\x08'));
    assert_eq!(scancode_to_char(0x0F), Some('\t'));
    assert_eq!(scancode_to_char(0x10), Some('q'));
    assert_eq!(scancode_to_char(0x1B), Some(']'));
    assert_eq!(scancode_to_char(0x1C), Some('\n'));
    assert_eq!(scancode_to_char(0x1D), None);
    assert_eq!(scancode_to_char(0x1E), Some('a'));
    assert_eq!(scancode_to_char(0x28), Some('\''));
    assert_eq!(scancode_to_char(0x29), Some('`'));
    assert_eq!(scancode_to_char(0x2A), None);
    assert_eq!(scancode_to_char(0x2B), Some('\\'));
    assert_eq!(scancode_to_char(0x35), Some('/'));
    assert_eq!(scancode_to_char(0x39), Some(' '));
    assert_eq!(scancode_to_char(0x9E), None);
    assert_eq!(scancode_to_char(0x01), None);
}

#[test]
fn only_the_commands_that_would_overflow_are_unsafe() {
    let mut big = sys();
    big.mem = Some(deepx::meminfo::MemoryStats {
        usable: u64::MAX,
        reserved: 0,
        kernel: 1,
        boot_reclaim: 0,
        reserved_count: 0,
    });
    let s = scheduler();
    assert!(!line_is_safe("  info ", &big, &s));
    assert!(!line_is_safe("info cpu", &big, &s));
    assert!(line_is_safe("info ver", &big, &s));
    assert!(line_is_safe("info hw", &big, &s));
    assert!(line_is_safe("help", &big, &s));
    assert!(line_is_safe("   ", &big, &s));
    assert!(line_is_safe("tasks", &big, &s));
    let mut bad = Scheduler::new();
    let mut t = Task::new(3, 0x1000, None, 0x8000);
    t.stack_pointer = t.stack_top + 8;
    bad.add_task(t);
    assert!(!line_is_safe("tasks", &sys(), &bad));
    assert!(line_is_safe("info", &sys(), &bad));
    assert!(line_is_safe("kill 3", &sys(), &bad));
}
