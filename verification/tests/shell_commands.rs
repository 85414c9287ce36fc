use deepx::ring_buffer::RingBuffer;
use deepx::shell::{
    command_help, command_version, command_reboot, command_uptime, command_kill, command_block, command_resume,
    command_ls, command_rd, command_tasks, command_info, CommandResult, SystemInfo, SEPARATOR,
};
use deepx::dispatch::{dispatch, parse_command, ShellCommand};
use deepx::mdump::{command_mdump, write_memory_dump, DUMP_BYTES};
use deepx::process::{Scheduler, Task, TaskState};
use deepx::vfs::{RootRamFS, BootModule};
use deepx::cpuinfo::{CpuInfo, CpuFeatures};
use deepx::meminfo::MemoryStats;

fn contents(log: &RingBuffer) -> String {
    let mut buf = vec![0u8; 16384];
    let n = log.read_all(&mut buf);
    String::from_utf8_lossy(&buf[..n]).to_string()
}

fn sample_sys() -> SystemInfo {
    let mut brand = [0u8; 48];
    let b = b"  Test CPU 3000  ";
    brand[..b.len()].copy_from_slice(b);
    for x in brand.iter_mut().skip(b.len()) {
        *x = b' ';
    }
    SystemInfo {
        cpu: CpuInfo {
            vendor: "GenuineIntel",
            brand,
            cores: 4,
            threads: 8,
            features: CpuFeatures { sse: true, sse2: true, avx: false, nx: true, htt: false },
            temp_support: true,
        },
        mem: Some(MemoryStats {
            usable: 512 * 1024 * 1024,
            reserved: 3 * 1024,
            kernel: 2 * 1024 * 1024,
            boot_reclaim: 1024 * 1024,
            reserved_count: 7,
        }),
        uptime: (12, 3456),
    }
}

fn sample_scheduler() -> Scheduler {
    let mut s = Scheduler::new();
    s.add_task(Task::new_kernel_task());
    s.add_task(Task::new(1, 0x1000, Some("safe_console"), 0x10000));
    s.add_task(Task::new(2, 0x2000, Some("shell"), 0x20000));
    s.add_task(Task::new(5, 0x3000, None, 0x30000));
    s
}

fn sample_root() -> deepx::vfs::VfsNode {
    RootRamFS::new_node(vec![
        BootModule { cmdline: b"hello.txt".to_vec(), addr: 0x20_0000, data: b"Hello, DeepX!".to_vec() },
        BootModule { cmdline: b"blob.bin".to_vec(), addr: 0x30_0000, data: vec![0xFF, 0xFE, 0x00] },
    ])
}

#[test]
fn help_lists_the_commands() {
    let mut log = RingBuffer::new();
    command_help(&mut log);
    let expected = format!(
        "{}{}{}{}{}{}{}{}",
        SEPARATOR,
        " ^&fDeepX Shell - Help Menu\n",
        "\n",
        "^&9help       ^&f- Show this help menu\n",
        "^&9info       ^&f- Display system information\n",
        "^&9version    ^&f- Show kernel version\n",
        "^&9clear      ^&f- Clear the console screen\n",
        SEPARATOR
    );
    assert_eq!(contents(&log), expected);
}

#[test]
fn version_line() {
    let mut log = RingBuffer::new();
    command_version(&mut log);
    assert_eq!(contents(&log), "^&9Kernel version: ^&fDeepX Kernel ^&f26m02-v0.0.7_Dev9 (^&fProxima Deimos)\n");
}

#[test]
fn reboot_announces_itself() {
    let mut log = RingBuffer::new();
    command_reboot(&mut log);
    assert_eq!(contents(&log), "^&eRebooting system...\n");
}

#[test]
fn uptime_shows_hundredths() {
    let mut log = RingBuffer::new();
    command_uptime(&mut log, (12, 3456));
    assert_eq!(contents(&log), "^&9Uptime: ^&f12.34 seconds\n");
    let mut log = RingBuffer::new();
    command_uptime(&mut log, (0, 99));
    assert_eq!(contents(&log), "^&9Uptime: ^&f0.00 seconds\n");
}

#[test]
fn kill_usage_invalid_protected_and_removed() {
    let mut s = sample_scheduler();
    let mut log = RingBuffer::new();
    command_kill(&mut log, &[], &mut s);
    assert_eq!(contents(&log), "^&cUsage: kill <task_id>\n");

    let mut log = RingBuffer::new();
    command_kill(&mut log, &["abc"], &mut s);
    assert_eq!(contents(&log), "^&cError: Invalid task ID.\n");

    let mut log = RingBuffer::new();
    command_kill(&mut log, &["2"], &mut s);
    assert_eq!(contents(&log), "^&cError: Cannot kill task 2 (protected or not found).\n");
    assert_eq!(s.get_task_count(), 4);

    let mut log = RingBuffer::new();
    command_kill(&mut log, &["5"], &mut s);
    assert_eq!(contents(&log), "^&aTask 5 terminated successfully.\n");
    assert_eq!(s.get_task_count(), 3);
    assert!(s.get_tasks().iter().all(|t| t.id != 5));

    let mut log = RingBuffer::new();
    command_kill(&mut log, &["5"], &mut s);
    assert_eq!(contents(&log), "^&cError: Cannot kill task 5 (protected or not found).\n");
}

#[test]
fn block_and_resume() {
    let mut s = sample_scheduler();
    let mut log = RingBuffer::new();
    command_block(&mut log, &["0"], &mut s);
    assert_eq!(contents(&log), "^&cError: Cannot block kernel_main.\n");

    let mut log = RingBuffer::new();
    command_block(&mut log, &["5"], &mut s);
    assert_eq!(contents(&log), "^&eTask 5 is now Blocked.\n");
    assert_eq!(s.get_tasks()[3].state, TaskState::Blocked);

    let mut log = RingBuffer::new();
    command_block(&mut log, &["9"], &mut s);
    assert_eq!(contents(&log), "^&cError: Task not found.\n");

    let mut log = RingBuffer::new();
    command_resume(&mut log, &["5"], &mut s);
    assert_eq!(contents(&log), "^&aTask 5 is now Ready.\n");
    assert_eq!(s.get_tasks()[3].state, TaskState::Ready);

    let mut log = RingBuffer::new();
    command_resume(&mut log, &["x"], &mut s);
    assert_eq!(contents(&log), "");
}

#[test]
fn ls_lists_modules() {
    let root = sample_root();
    let mut log = RingBuffer::new();
    command_ls(&mut log, Some(&root));
    assert_eq!(
        contents(&log),
        "  ^&7/hello.txt        ^&7      13 bytes\n  ^&7/blob.bin         ^&7       3 bytes\n"
    );
    let mut log = RingBuffer::new();
    command_ls(&mut log, None);
    assert_eq!(contents(&log), "");
}

#[test]
fn rd_text_binary_missing_and_usage() {
    let root = sample_root();
    let mut log = RingBuffer::new();
    command_rd(&mut log, &["hello.txt"], Some(&root));
    assert_eq!(contents(&log), "^&7--- START OF FILE ---\nHello, DeepX!\n^&7--- END OF FILE ---\n");

    let mut log = RingBuffer::new();
    command_rd(&mut log, &["blob.bin"], Some(&root));
    assert_eq!(
        contents(&log),
        "^&7--- START OF FILE ---\n^&8[Binary data - cannot display as text]\n\n^&7--- END OF FILE ---\n"
    );

    let mut log = RingBuffer::new();
    command_rd(&mut log, &["nope"], Some(&root));
    assert_eq!(contents(&log), "^&cError: File 'nope' not found.\n");

    let mut log = RingBuffer::new();
    command_rd(&mut log, &["hello.txt"], None);
    assert_eq!(contents(&log), "^&cError: VFS not initialized.\n");

    let mut log = RingBuffer::new();
    command_rd(&mut log, &[], Some(&root));
    assert_eq!(contents(&log), "^&cUsage: rd <filename>\n");
}

#[test]
fn tasks_table() {
    let mut s = Scheduler::new();
    s.add_task(Task::new_kernel_task());
    s.add_task(Task::new(1, 0x1000, Some("safe_console"), 0x10000));
    let mut log = RingBuffer::new();
    command_tasks(&mut log, &s);
    let expected = format!(
        "{}^&fID   NAME             STATE      SP            USAGE\n{}{}{}{}",
        SEPARATOR,
        SEPARATOR,
        " ^&90   ^&fKernelTask       ^&aRunning ^&70x00000000       ^&f  0%\n",
        " ^&91   ^&fsafe_console     ^&eReady   ^&70x00013fc8       ^&f  0%\n",
        SEPARATOR
    );
    assert_eq!(contents(&log), expected);
}

#[test]
fn info_summary_hw_ver_help() {
    let sys = sample_sys();
    let mut log = RingBuffer::new();
    command_info(&mut log, &[], &sys);
    let expected = format!(
        "{}^&9Kernel:  ^&f26m02-v0.0.7_Dev9\n^&9OS:      ^&fUnknown/Not installed\n^&9Uptime:  ^&f12.34s\n^&9Memory:  ^&f2 MB / 515 MB\n^&9Cpu:     ^&fTest CPU 3000\n\n^&7Type '^&finfo help^&7' for more details.\n{}",
        SEPARATOR, SEPARATOR
    );
    assert_eq!(contents(&log), expected);

    let mut log = RingBuffer::new();
    command_info(&mut log, &["hw"], &sys);
    let expected = format!(
        "{}^&fHardware Resources\n ^&7CPU:\n  ^&9Vendor:         ^&fGenuineIntel\n  ^&9Brand:          ^&fTest CPU 3000\n  ^&9Cores:          ^&f4\n  ^&9Threads:        ^&f8\n  ^&9Features:       ^&fCpuFeatures {{ sse: true, sse2: true, avx: false, nx: true, htt: false }}\n  ^&9Temp Sensor:    ^&ftrue\n ^&7MEM:\n  ^&9RAM Usable:     ^&f512 MB\n  ^&9RAM Reserved:   ^&f3 KB\n  ^&9Kernel Code:    ^&f2 MB\n  ^&9Boot Reclaim:   ^&f1 MB\n  ^&9Reserved Count: ^&f7\n{}",
        SEPARATOR, SEPARATOR
    );
    assert_eq!(contents(&log), expected);

    let mut log = RingBuffer::new();
    command_info(&mut log, &["ver"], &sys);
    let expected = format!(
        "{}^&9Kernel:      ^&fDeepX Kernel v26m02-v0.0.7_Dev9\n^&9OS: ^&fUnknown/Not installed\n^&9Scheduler API:   ^&fv2-SMP\n^&9VFS API:         ^&fv0.1.0\n^&9Systunnel ABI:   ^&fv0.0.6\n^&9KernelShell API: ^&fv0.3.2\n{}",
        SEPARATOR, SEPARATOR
    );
    assert_eq!(contents(&log), expected);

    let mut log = RingBuffer::new();
    command_info(&mut log, &["help"], &sys);
    let expected = format!(
        "{}^&9info       ^&f- System summary\n^&9info hw    ^&f- Hardware information\n^&9info ver   ^&f- Version information\n{}",
        SEPARATOR, SEPARATOR
    );
    assert_eq!(contents(&log), expected);
}

#[test]
fn info_hw_without_memory_map() {
    let mut sys = sample_sys();
    sys.mem = None;
    let mut log = RingBuffer::new();
    command_info(&mut log, &["hw"], &sys);
    assert!(contents(&log).contains(" ^&7MEM:\n  ^&cError: Memory map not available\n"));
}

#[test]
fn command_names() {
    assert_eq!(parse_command("info"), ShellCommand::Info);
    assert_eq!(parse_command("kill"), ShellCommand::Kill);
    assert_eq!(parse_command("clear"), ShellCommand::Clear);
    assert_eq!(parse_command("Info"), ShellCommand::Unknown);
    assert_eq!(parse_command("block"), ShellCommand::Unknown);
}

#[test]
fn dispatch_blank_unknown_clear() {
    let sys = sample_sys();
    let mut s = sample_scheduler();
    let mut log = RingBuffer::new();
    assert_eq!(dispatch(" \t ", &mut log, &mut s, &sys, None), CommandResult::Nothing);
    assert_eq!(contents(&log), "");

    assert_eq!(dispatch("frobnicate now", &mut log, &mut s, &sys, None), CommandResult::Nothing);
    assert_eq!(contents(&log), "^&cUnknown command: frobnicate\n^&fType 'help' for available commands\n^&f");

    assert_eq!(dispatch("clear", &mut log, &mut s, &sys, None), CommandResult::ClearScreen);
    assert_eq!(contents(&log), "");
}

#[test]
fn dispatch_runs_commands_with_their_arguments() {
    let sys = sample_sys();
    let mut s = sample_scheduler();
    let mut log = RingBuffer::new();
    assert_eq!(dispatch("  kill   5 ", &mut log, &mut s, &sys, None), CommandResult::Nothing);
    assert_eq!(contents(&log), "^&aTask 5 terminated successfully.\n^&f");
    assert_eq!(s.get_task_count(), 3);

    let mut log = RingBuffer::new();
    assert_eq!(dispatch("version", &mut log, &mut s, &sys, None), CommandResult::Nothing);
    assert_eq!(contents(&log), "^&9Kernel version: ^&fDeepX Kernel ^&f26m02-v0.0.7_Dev9 (^&fProxima Deimos)\n^&f");

    let root = sample_root();
    let mut log = RingBuffer::new();
    assert_eq!(dispatch("rd hello.txt", &mut log, &mut s, &sys, Some(&root)), CommandResult::Nothing);
    assert_eq!(contents(&log), "^&7--- START OF FILE ---\nHello, DeepX!\n^&7--- END OF FILE ---\n^&f");

    let mut log = RingBuffer::new();
    assert_eq!(dispatch("reboot", &mut log, &mut s, &sys, None), CommandResult::Reboot);
    assert_eq!(contents(&log), "^&eRebooting system...\n");
}

#[test]
fn mdump_addresses() {
    let mut log = RingBuffer::new();
    assert_eq!(command_mdump(&mut log, &[]), None);
    assert_eq!(contents(&log), "^&cUsage: mdump <hex_address>\n");

    let mut log = RingBuffer::new();
    assert_eq!(command_mdump(&mut log, &["xyz"]), None);
    assert_eq!(contents(&log), "^&cInvalid hexadecimal address!\n");

    let mut log = RingBuffer::new();
    assert_eq!(command_mdump(&mut log, &["0x0x1F"]), Some(0x1F));
    assert_eq!(contents(&log), "");
    assert_eq!(command_mdump(&mut log, &["+ff"]), Some(255));
    assert_eq!(command_mdump(&mut log, &["0xDEADbeef"]), Some(0xDEAD_BEEF));
    assert_eq!(command_mdump(&mut log, &["0x"]), None);

    let sys = sample_sys();
    let mut s = sample_scheduler();
    let mut log = RingBuffer::new();
    assert_eq!(dispatch("mdump 0x1000", &mut log, &mut s, &sys, None), CommandResult::DumpMemory(0x1000));
    assert_eq!(contents(&log), "");
    assert_eq!(dispatch("mdump", &mut log, &mut s, &sys, None), CommandResult::Nothing);
    assert_eq!(contents(&log), "^&cUsage: mdump <hex_address>\n^&f");
}

#[test]
fn memory_dump_layout() {
    let mem: Vec<u8> = (0..DUMP_BYTES).map(|i| (i % 256) as u8).collect();
    let mut log = RingBuffer::new();
    write_memory_dump(&mut log, 0x1000, &mem);
    let text = contents(&log);
    let lines: Vec<&str> = text.split('\n').collect();
    assert_eq!(format!("{}\n", lines[0]), SEPARATOR);
    assert_eq!(lines[1], "^&eMemory Dump at: ^&f0x1000");
    assert_eq!(
        lines[3],
        "^&90000000000001000  ^&f00 01 02 03 04 05 06 07 08 09 0A 0B 0C 0D 0E 0F  ^&8| ^&7................"
    );
    assert_eq!(
        lines[5],
        "^&90000000000001020  ^&f20 21 22 23 24 25 26 27 28 29 2A 2B 2C 2D 2E 2F  ^&8| ^&7 !\"#$%&'()*+,-./"
    );
    assert_eq!(
        lines[66],
        "^&900000000000013F0  ^&fF0 F1 F2 F3 F4 F5 F6 F7 F8 F9 FA FB FC FD FE FF  ^&8| ^&7................"
    );
    assert_eq!(lines.len(), 69);
    assert_eq!(lines[68], "^&f");
}

#[test]
fn printed_id_reads_back() {
    let id: u64 = 18_446_744_073_709_551_000;
    let mut s = Scheduler::new();
    s.add_task(Task::new(id, 0x1000, Some("big"), 0x10000));
    let digits = String::from_utf8(deepx::text::u64_decimal(id)).unwrap();
    let mut log = RingBuffer::new();
    command_kill(&mut log, &[digits.as_str()], &mut s);
    assert_eq!(contents(&log), format!("^&aTask {} terminated successfully.\n", id));
    assert_eq!(s.get_task_count(), 0);
}

#[test]
fn dumped_address_reads_back() {
    let mem = vec![0u8; DUMP_BYTES];
    let mut log = RingBuffer::new();
    write_memory_dump(&mut log, 0xFFFF_8000_0000_1230, &mem);
    let text = contents(&log);
    let row = text.split('\n').nth(4).unwrap();
    let shown = &row[3..19];
    assert_eq!(shown, "FFFF800000001240");
    let mut log = RingBuffer::new();
    assert_eq!(command_mdump(&mut log, &[shown]), Some(0xFFFF_8000_0000_1240));
}
