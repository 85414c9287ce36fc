use std::collections::VecDeque;

use deepx::console::{ConsoleBase, DrawOp, Pixel, FONT_SIZE, MARGIN};
use deepx::cpuinfo::{CpuFeatures, CpuInfo};
use deepx::debug_panel::{overlay_due, render_debug_overlay, DEV_RED, GREY};
use deepx::display::{process_keyboard_queue, set_display_mode, DisplayAction, DisplayMode, DisplayState};
use deepx::input::{init_input, pop_key, push_key};
use deepx::kernel_shell::{draw_cursor, CursorPos, KernelShell};
use deepx::logger::RtcTime;
use deepx::message::{empty_text, log_info, push_dec, push_hex, push_hex16, push_text, push_upper_hex, push_upper_hex16};
use deepx::meminfo::MemoryStats;
use deepx::page_walk::{debug_walk_begin, debug_walk_level, flags_debug, walk_entry_address};
use deepx::paging::{HHDM_OFFSET, HUGE_PAGE, NO_EXECUTE, PRESENT, USER_ACCESSIBLE, WRITABLE};
use deepx::panic_screen::{kernel_panic, PANIC_GREY, PANIC_RED};
use deepx::process::{Scheduler, Task, NO_TASK};
use deepx::report::{dump_vfs_at_boot, print_cpu_info, print_memory_info};
use deepx::ring_buffer::{RingBuffer, LOG_BUFFER_SIZE};
use deepx::safe_console::SafeConsole;
use deepx::shell::{CommandResult, SystemInfo};
use deepx::vfs::{BootModule, RootRamFS};

const T: RtcTime = RtcTime { hour: 10, minute: 20, second: 30 };

fn contents(log: &RingBuffer) -> String {
    let mut out = vec![0u8; LOG_BUFFER_SIZE];
    let n = log.read_all(&mut out);
    out.truncate(n);
    String::from_utf8(out).unwrap()
}

fn drawn_text(ops: &[DrawOp]) -> String {
    ops.iter()
        .filter_map(|op| match op {
            DrawOp::Char { c, .. } => Some(*c as char),
            _ => None,
        })
        .collect()
}

fn row_text(ops: &[DrawOp], row: u64) -> String {
    ops.iter()
        .filter_map(|op| match op {
            DrawOp::Char { c, y, .. } if *y == row => Some(*c as char),
            _ => None,
        })
        .collect()
}

#[test]
fn console_renders_text_and_colours() {
    let mut c = ConsoleBase::new(640, 480);
    let ops = c.render_bytes(b"A^&4B\rC");
    assert_eq!(
        ops,
        vec![
            DrawOp::Char { c: b'A', x: MARGIN, y: MARGIN, fg: 0xFFFFFF, bg: 0 },
            DrawOp::Char { c: b'B', x: MARGIN + 8, y: MARGIN, fg: 0xAA0000, bg: 0 },
            DrawOp::Char { c: b'C', x: MARGIN, y: MARGIN, fg: 0xAA0000, bg: 0 },
        ]
    );
    assert_eq!(c.cursor_x, MARGIN + 8);
    assert_eq!(c.parse_color(b'f'), 0xFFFFFF);
    assert_eq!(c.parse_color(b'9'), 0x5555FF);
    assert_eq!(c.parse_color(b'z'), 0xFFFFFF);
}

#[test]
fn console_newline_backspace_and_scroll() {
    let mut c = ConsoleBase::new(640, 55);
    let ops = c.render_bytes(b"ab\x08\n");
    assert_eq!(ops.len(), 3);
    assert_eq!(ops[2], DrawOp::Char { c: b' ', x: MARGIN + 8, y: MARGIN, fg: 0, bg: 0 });
    assert_eq!((c.cursor_x, c.cursor_y), (MARGIN, MARGIN + 9));
    // Lines 9 pixels high on a 55-pixel screen: the next break scrolls.
    let ops = c.newline();
    assert_eq!(ops, vec![DrawOp::Scroll { lines: 9, bg: 0 }]);
    assert_eq!(c.cursor_y, MARGIN + 9);
    // A backspace at the margin does nothing; control bytes are skipped.
    let ops = c.render_bytes(b"\x08\x00\x07");
    assert!(ops.is_empty());
    assert_eq!(c.clear(), DrawOp::Clear { bg: 0 });
    assert_eq!((c.cursor_x, c.cursor_y), (MARGIN, MARGIN));
}

#[test]
fn console_draws_glyphs() {
    let c = ConsoleBase::new(640, 480);
    let mut font = vec![0u8; FONT_SIZE];
    font[b'X' as usize * 8] = 0b1000_0001;
    let pixels = c.glyph(&font, b'X', 100, 200, 0xFF, 0x11);
    // Nine rows (the line height) of eight pixels.
    assert_eq!(pixels.len(), 72);
    assert_eq!(pixels[0], Pixel { x: 100, y: 200, color: 0xFF });
    assert_eq!(pixels[1], Pixel { x: 101, y: 200, color: 0x11 });
    assert_eq!(pixels[7], Pixel { x: 107, y: 200, color: 0xFF });
    assert!(pixels[8..].iter().all(|p| p.color == 0x11));
    // Clipped at the right and bottom edges.
    assert_eq!(c.glyph(&font, b'X', 636, 476, 1, 2).len(), 16);
}

#[test]
fn console_redraws_the_log() {
    let mut log = RingBuffer::new();
    log.push_str("hi\nyo");
    let mut c = ConsoleBase::new(640, 480);
    let mut d = DisplayState::new();
    d.needs_full_redraw = true;
    let ops = c.render_buffer(&log, &mut d);
    assert_eq!(ops[0], DrawOp::Clear { bg: 0 });
    assert_eq!(drawn_text(&ops), "hiyo");
    assert!(!d.needs_full_redraw);
    assert_eq!((c.cursor_x, c.cursor_y), (MARGIN + 16, MARGIN + 9));
    let again = c.render_buffer(&log, &mut d);
    assert_eq!(drawn_text(&again), "hiyo");
    assert!(!matches!(again[0], DrawOp::Clear { .. }));
}

#[test]
fn panic_screen_layout() {
    let mut c = ConsoleBase::new(640, 480);
    let ops = kernel_panic(&mut c, "boom", Some("main.rs"));
    assert_eq!(drawn_text(&ops), "PANIC: boomAT: main.rsSystem halted.");
    assert_eq!(ops[0], DrawOp::Char { c: b'P', x: MARGIN, y: MARGIN + 9, fg: PANIC_RED, bg: 0 });
    assert_eq!(ops[7], DrawOp::Char { c: b'b', x: MARGIN + 56, y: MARGIN + 9, fg: PANIC_GREY, bg: 0 });
    assert_eq!(row_text(&ops, MARGIN + 18), "AT: main.rs");
    assert_eq!(row_text(&ops, MARGIN + 27), "System halted.");
    let mut c = ConsoleBase::new(640, 480);
    let ops = kernel_panic(&mut c, "x", None);
    assert_eq!(drawn_text(&ops), "PANIC: xSystem halted.");
}

#[test]
fn debug_overlay_rows() {
    let mut c = ConsoleBase::new(800, 600);
    let before = c;
    let mut cpus = [NO_TASK; 8];
    cpus[1] = 42;
    let ops = render_debug_overlay(
        &mut c,
        3,
        &cpus,
        (12, 3456),
        2_000_000,
        8_000_000,
        0x1E,
        Some('a'),
        DisplayMode::KernelShell,
    );
    assert_eq!(c, before);
    assert_eq!(row_text(&ops, 10), "DEV BUILD - UNSTABLE");
    assert_eq!(ops[0], DrawOp::Char { c: b'D', x: 600, y: 10, fg: DEV_RED, bg: 0 });
    assert_eq!(row_text(&ops, 26), deepx::KERNEL_VERSION);
    assert_eq!(row_text(&ops, 42), "UP:   0012.34");
    assert_eq!(row_text(&ops, 58), "LIVE: -----");
    assert_eq!(row_text(&ops, 74), "TSK:  3");
    assert_eq!(row_text(&ops, 90), "CPU CORES:");
    assert_eq!(row_text(&ops, 106), "CPU 0: IDLE");
    assert_eq!(row_text(&ops, 122), "CPU 1: TASK #42");
    assert_eq!(row_text(&ops, 170), "KEY:  0x1E (a)");
    assert_eq!(row_text(&ops, 186), "MODE: SHELL");
    let ops = render_debug_overlay(&mut c, 0, &cpus, (0, 0), 0, 0, 0, None, DisplayMode::SafeConsole);
    assert_eq!(row_text(&ops, 58), "LIVE: ?????");
    assert_eq!(row_text(&ops, 170), "KEY:  None");
    assert_eq!(row_text(&ops, 186), "MODE: LOGS");
    assert!(ops.iter().all(|op| !matches!(op, DrawOp::Char { y: 42, fg, .. } if *fg != GREY)));
    assert!(overlay_due(115, 110));
    assert!(!overlay_due(114, 110));
}

#[test]
fn page_walk_lines() {
    assert_eq!(flags_debug(0), b"PageTableFlags(0x0)".to_vec());
    assert_eq!(
        flags_debug(PRESENT | WRITABLE | NO_EXECUTE | 0x7000),
        b"PageTableFlags(PRESENT | WRITABLE | NO_EXECUTE)".to_vec()
    );
    let mut log = RingBuffer::new();
    debug_walk_begin(0x40_0000, &mut log, T);
    assert_eq!(
        contents(&log),
        "^&8[10:20:30] ^&7[^&9 INFO ^&7] ^&7--- Detailed Walk: 0x0000000000400000 ---\n"
    );
    let mut log = RingBuffer::new();
    let next = debug_walk_level(4, 0x40_0000, 0x1000 | PRESENT | WRITABLE, &mut log, T);
    assert_eq!(next, Some(0x1000));
    assert_eq!(
        contents(&log),
        "^&8[10:20:30] ^&7[^&9 INFO ^&7] ^&7L4 Index: 0 | Entry: 0x1000 | Flags: PageTableFlags(PRESENT | WRITABLE)\n"
    );
    let mut log = RingBuffer::new();
    assert_eq!(debug_walk_level(3, 0, 0, &mut log, T), None);
    assert!(contents(&log).ends_with("[^&4FAILED^&7] ^&7  L3: Table not present!\n"));
    let mut log = RingBuffer::new();
    assert_eq!(debug_walk_level(2, 0, 0x20_0000 | PRESENT | HUGE_PAGE, &mut log, T), None);
    assert!(contents(&log).ends_with("^&7    L2: HUGE_PAGE (2MB) detected. Stopping walk.\n"));
    let mut log = RingBuffer::new();
    assert_eq!(debug_walk_level(1, 0x40_1000, 0xABC000 | PRESENT, &mut log, T), None);
    let c = contents(&log);
    assert!(c.contains("[^&2  OK  ^&7] ^&7      L1 Index: 1 | Phys Frame: 0xABC000 | Flags: PageTableFlags(PRESENT)\n"));
    assert!(c.ends_with("^&7      CRITICAL: USER_ACCESSIBLE bit is MISSING at L1!\n"));
    let mut log = RingBuffer::new();
    assert_eq!(debug_walk_level(1, 0, 0xABC000 | PRESENT | USER_ACCESSIBLE, &mut log, T), None);
    assert!(!contents(&log).contains("CRITICAL"));
    assert_eq!(walk_entry_address(0x5000, 1, 0x40_3000), 0x5000 + HHDM_OFFSET + 24);
}

#[test]
fn display_hotkeys_and_typing() {
    let mut d = DisplayState::new();
    assert_eq!(d.mode, DisplayMode::SafeConsole);
    assert_eq!(d.mode.as_str(), "LOGS");
    // Typing is ignored outside the shell.
    assert!(d.handle_scancode(0x1E).is_empty());
    // Ctrl+Shift+F3 switches to the shell.
    let mut q: VecDeque<u8> = VecDeque::from(vec![0x1D, 0x2A, 0x3D, 0xAA, 0x9D, 0x1E, 0x9E]);
    let actions = process_keyboard_queue(&mut d, &mut q);
    assert!(q.is_empty());
    assert_eq!(actions, vec![DisplayAction::ClearConsole, DisplayAction::TypeKey(0x1E)]);
    assert_eq!(d.mode, DisplayMode::KernelShell);
    assert!(d.needs_full_redraw);
    assert!(!d.ctrl && !d.shift);
    // Switching to the mode already shown changes nothing.
    let before = d;
    assert!(!set_display_mode(&mut d, DisplayMode::KernelShell));
    assert_eq!(d, before);
    assert!(set_display_mode(&mut d, DisplayMode::RecoveryConsole));
    assert_eq!(d.mode.as_str(), "RECOVERY");
}

#[test]
fn input_queue_fifo() {
    let mut q = init_input();
    assert_eq!(pop_key(&mut q), None);
    push_key(&mut q, 'a');
    push_key(&mut q, 'b');
    assert_eq!(pop_key(&mut q), Some('a'));
    assert_eq!(pop_key(&mut q), Some('b'));
    assert!(q.is_empty());
}

fn sys() -> SystemInfo {
    SystemInfo {
        cpu: CpuInfo {
            vendor: "GenuineIntel",
            brand: [b' '; 48],
            cores: 1,
            threads: 1,
            features: CpuFeatures { sse: true, sse2: false, avx: false, nx: false, htt: false },
            temp_support: false,
        },
        mem: None,
        uptime: (1, 0),
    }
}

#[test]
fn kernel_shell_typing_and_running() {
    let shell = KernelShell::new();
    let mut log = RingBuffer::new();
    shell.init(&mut log);
    shell.write_prompt(&mut log);
    assert_eq!(
        contents(&log),
        "^&fWelcome to the DeepX Kernel Shell!\n^&fType 'help' for a list of commands.\n^&f-----------------------------------\n\n> "
    );
    let mut sched = Scheduler::new();
    sched.add_task(Task::new_kernel_task());
    let s = sys();
    let mut input = String::new();
    let mut log = RingBuffer::new();
    for ch in "versiox".chars() {
        assert_eq!(shell.handle_char(ch, &mut input, &mut log, &mut sched, &s, None), CommandResult::Nothing);
    }
    assert_eq!(shell.handle_char('\x08', &mut input, &mut log, &mut sched, &s, None), CommandResult::Nothing);
    assert_eq!(input, "versio");
    assert_eq!(contents(&log), "versio");
    shell.handle_char('n', &mut input, &mut log, &mut sched, &s, None);
    let r = shell.handle_char('\n', &mut input, &mut log, &mut sched, &s, None);
    assert_eq!(r, CommandResult::Nothing);
    assert!(input.is_empty());
    let c = contents(&log);
    assert!(c.starts_with("version\n"));
    assert!(c.contains(deepx::KERNEL_VERSION));
    assert!(c.ends_with("\n> "));
    // A blank line only gets a new prompt; backspace on an empty line does nothing.
    let mut log = RingBuffer::new();
    assert_eq!(shell.handle_char('\x08', &mut input, &mut log, &mut sched, &s, None), CommandResult::Nothing);
    assert_eq!(shell.handle_char('\n', &mut input, &mut log, &mut sched, &s, None), CommandResult::Nothing);
    assert_eq!(contents(&log), "\n\n> ");
    // A reboot is left to the caller: no prompt follows.
    let mut log = RingBuffer::new();
    let mut input = String::from("  reboot ");
    assert_eq!(shell.handle_char('\n', &mut input, &mut log, &mut sched, &s, None), CommandResult::Reboot);
    assert!(!contents(&log).ends_with("> "));
    let mut log = RingBuffer::new();
    assert_eq!(shell.execute("   ", &mut log, &mut sched, &s, None), CommandResult::Nothing);
    assert_eq!(contents(&log), "");
    assert_eq!(shell.execute(" clear ", &mut log, &mut sched, &s, None), CommandResult::ClearScreen);
    shell.write_str(&mut log, "x");
    assert_eq!(contents(&log), "x");
}

#[test]
fn shell_cursor() {
    let c = ConsoleBase::new(640, 480);
    let mut last = CursorPos { x: 5, y: 6 };
    let ops = draw_cursor(&c, &mut last);
    assert_eq!(
        ops,
        vec![
            DrawOp::Char { c: b' ', x: 5, y: 6, fg: 0, bg: 0 },
            DrawOp::Char { c: b'_', x: MARGIN, y: MARGIN, fg: 0xFFFFFF, bg: 0 },
        ]
    );
    assert_eq!((last.x, last.y), (MARGIN, MARGIN));
}

#[test]
fn safe_console_and_messages() {
    let mut log = RingBuffer::new();
    SafeConsole::new().write_str(&mut log, "kernel says hi");
    assert_eq!(contents(&log), "kernel says hi");
    let mut m = empty_text();
    push_text(&mut m, "n=");
    push_dec(&mut m, 1234);
    push_text(&mut m, " h=");
    push_hex(&mut m, 0xBEEF);
    push_text(&mut m, " H=");
    push_upper_hex(&mut m, 0xBEEF);
    push_text(&mut m, " p=");
    push_hex16(&mut m, 0xBEEF);
    push_text(&mut m, " P=");
    push_upper_hex16(&mut m, 0xBEEF);
    assert_eq!(String::from_utf8(m.clone()).unwrap(), "n=1234 h=beef H=BEEF p=000000000000beef P=000000000000BEEF");
    let mut log = RingBuffer::new();
    log_info(&mut log, T, &m);
    assert!(contents(&log).starts_with("^&8[10:20:30] ^&7[^&9 INFO ^&7] ^&7n=1234"));
}

#[test]
fn boot_reports() {
    let mut log = RingBuffer::new();
    let mut brand = [0u8; 48];
    brand[..12].copy_from_slice(b"  Fast CPU  ");
    let cpu = CpuInfo {
        vendor: "AuthenticAMD",
        brand,
        cores: 8,
        threads: 16,
        features: CpuFeatures { sse: true, sse2: true, avx: true, nx: true, htt: true },
        temp_support: true,
    };
    print_cpu_info(&cpu, &mut log, T);
    let c = contents(&log);
    let lines: Vec<&str> = c.lines().collect();
    assert_eq!(lines.len(), 6);
    assert_eq!(lines[0], "^&8[10:20:30] ^&7[^&9 INFO ^&7] ^&7Vendor:       ^&fAuthenticAMD");
    assert_eq!(lines[1], format!("^&8[10:20:30] ^&7[^&9 INFO ^&7] ^&7Brand:        ^&fFast CPU  {}", "\0".repeat(36)));
    assert!(lines[2].ends_with("Cores:        ^&f8"));
    assert!(lines[3].ends_with("Threads:      ^&f16"));
    assert!(lines[4].ends_with(&format!("Features:     ^&f{:?}", cpu.features)));
    assert!(lines[5].ends_with("Temp Sensor:  ^&ftrue"));

    let mut log = RingBuffer::new();
    print_memory_info(None, &mut log, T);
    assert!(contents(&log).ends_with("[^&4FAILED^&7] ^&7Memory map not found!\n"));
    let mut log = RingBuffer::new();
    let stats = MemoryStats { usable: 3 << 20, reserved: 2048, kernel: 100, boot_reclaim: 0, reserved_count: 2 };
    print_memory_info(Some(stats), &mut log, T);
    let c = contents(&log);
    assert!(c.contains("RAM Usable:     ^&f3 MB\n"));
    assert!(c.contains("RAM Reserved:   ^&f2 KB\n"));
    assert!(c.contains("Kernel Code:    ^&f100 B\n"));
    assert!(c.contains("Boot Reclaim:   ^&f0 B\n"));
    assert!(c.ends_with("Reserved Count: ^&f2\n"));

    let root = RootRamFS::new_node(vec![BootModule { cmdline: b"init.dxb".to_vec(), addr: 0x1234, data: vec![1, 2, 3] }]);
    let mut log = RingBuffer::new();
    dump_vfs_at_boot(Some(&root), &mut log, T);
    assert_eq!(
        contents(&log),
        "^&8[10:20:30] ^&7[^&9 INFO ^&7] ^&7  Found node: init.dxb (3 bytes) at 0x0000000000001234\n"
    );
    let mut log = RingBuffer::new();
    dump_vfs_at_boot(None, &mut log, T);
    assert_eq!(contents(&log), "");
}
