use deepx::console::{check_geometry, ConsoleBase};
use deepx::input::{init_input, pop_key, push_key};
use deepx::process::{Scheduler, Task};
use deepx::reset::{reset_wait_step, ResetWait, KBC_INPUT_FULL, RESET_POLLS};
use deepx::ring_buffer::{push_line, push_u32, RingBuffer, LOG_BUFFER_SIZE};
use deepx::systunnel::check_images_fit;
use deepx::timer::Tsc;
use deepx::vfs::{BootModule, RootRamFS};

fn read_back(rb: &RingBuffer) -> Vec<u8> {
    let mut out = vec![0u8; LOG_BUFFER_SIZE + 7];
    let n = rb.read_all(&mut out);
    out.truncate(n);
    out
}

#[test]
fn log_reads_back_the_last_bytes_written() {
    let mut rb = RingBuffer::new();
    let mut written: Vec<u8> = Vec::new();
    for i in 0..3000u32 {
        rb.push_str("line ");
        written.extend_from_slice(b"line ");
        push_u32(&mut rb, i);
        written.extend_from_slice(i.to_string().as_bytes());
        push_line(&mut rb, ";");
        written.extend_from_slice(b";\n");
        if i == 10 {
            assert_eq!(read_back(&rb), written);
        }
    }
    assert!(written.len() > LOG_BUFFER_SIZE);
    assert_eq!(read_back(&rb), written[written.len() - LOG_BUFFER_SIZE..].to_vec());
    rb.clear();
    rb.push_bytes(b"again");
    assert_eq!(read_back(&rb), b"again".to_vec());
}

#[test]
fn keys_come_out_in_typing_order() {
    let mut q = init_input();
    for c in ['h', 'i', '\n', 'x'] {
        push_key(&mut q, c);
    }
    assert_eq!(pop_key(&mut q), Some('h'));
    assert_eq!(pop_key(&mut q), Some('i'));
    assert_eq!(pop_key(&mut q), Some('\n'));
    assert_eq!(pop_key(&mut q), Some('x'));
    assert_eq!(pop_key(&mut q), None);
    assert_eq!(pop_key(&mut q), None);
}

#[test]
fn task_count_and_cpu_slots_over_calls() {
    let mut s = Scheduler::new();
    let slots = s.get_cpu_tasks();
    s.add_task(Task::new_kernel_task());
    s.spawn(0x1000, None, None, 0x10000);
    s.spawn(0x2000, Some("two"), Some(2), 0x20000);
    assert_eq!(s.get_task_count(), 3);
    assert!(s.block_task(1));
    assert!(s.resume_task(1));
    assert!(!s.remove_task(2));
    assert!(s.remove_task(1));
    assert!(!s.remove_task(1));
    assert_eq!(s.get_task_count(), 2);
    assert_eq!(s.get_tasks().len(), 2);
    assert_eq!(s.get_cpu_tasks(), slots);
}

#[test]
fn uptime_needs_only_the_part_of_a_second_to_scale() {
    let big = Tsc { ticks_per_sec: u64::MAX / 2, boot_tsc: 0 };
    assert!(big.uptime_in_range(5));
    assert_eq!(big.get_uptime(5), (0, 0));
    assert!(big.uptime_in_range(u64::MAX / 2));
    assert_eq!(big.get_uptime(u64::MAX / 2), (1, 0));
    assert!(!big.uptime_in_range(u64::MAX / 2 - 1));
    let t = Tsc { ticks_per_sec: 1000, boot_tsc: 250 };
    assert!(t.uptime_in_range(3750));
    assert_eq!(t.get_uptime(3750), (3, 5000));
    assert!(Tsc { ticks_per_sec: 0, boot_tsc: 0 }.uptime_in_range(9));
}

#[test]
fn console_geometry_check() {
    let mut c = ConsoleBase {
        width: 1024,
        height: 768,
        cursor_x: 0,
        cursor_y: 0,
        current_fg: 0xFFFFFF,
        current_bg: 0,
        line_height: 16,
    };
    assert!(check_geometry(&c));
    c.height = 9;
    assert!(!check_geometry(&c));
    c.height = 768;
    c.line_height = 0x1_0000;
    assert!(!check_geometry(&c));
    c.line_height = 16;
    c.width = 0x1_0000_0000;
    assert!(!check_geometry(&c));
}

#[test]
fn small_images_fit() {
    assert!(check_images_fit(None));
    let root = RootRamFS::new_node(vec![BootModule { cmdline: b"a.bin".to_vec(), addr: 0x1000, data: vec![1, 2, 3] }]);
    assert!(check_images_fit(Some(&root)));
}

#[test]
fn reset_waits_while_the_controller_is_busy() {
    assert_eq!(reset_wait_step(RESET_POLLS, KBC_INPUT_FULL), ResetWait::Poll(RESET_POLLS - 1));
    assert_eq!(reset_wait_step(RESET_POLLS, 0x01), ResetWait::Send);
    assert_eq!(reset_wait_step(1, 0xFF), ResetWait::Poll(0));
    assert_eq!(reset_wait_step(0, 0xFF), ResetWait::Send);
}
