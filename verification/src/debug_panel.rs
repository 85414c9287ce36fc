//! The debug overlay in the top right corner of the screen: build, version,
//! uptime, a spinner that shows the machine is alive, the task count, the
//! task each of the first four CPUs runs, the last key and the display mode.
use vstd::prelude::*;
use vstd::string::StringSliceAdditionalSpecFns;
use crate::console::{ConsoleBase, DrawOp, geometry_ok};
use crate::display::DisplayMode;
use crate::text::{dec_digits, u64_decimal, lemma_dec_digits_u64, hex_byte};
use crate::process::NO_TASK;

verus! {

/// Width of the overlay, from the right edge of the screen.
pub const OVERLAY_WIDTH: u64 = 200;

/// Top of the first row.
pub const OVERLAY_TOP: u64 = 10;

/// Distance between rows.
pub const ROW_SPACING: u64 = 16;

/// Where values start, right of their labels.
pub const LABEL_WIDTH: u64 = 48;

pub const DEV_RED: u32 = 0xaa0a0a;

pub const WHITE: u32 = 0xFFFFFF;

pub const GREY: u32 = 0xAAAAAA;

pub const GREEN: u32 = 0x00FF00;

pub const DARK_GREY: u32 = 0x555555;

pub const CYAN: u32 = 0x00FFFF;

/// The characters of `text` drawn one cell apart from (`x`, `y`).
pub open spec fn chars_at(x: u64, y: u64, fg: u32, bg: u32, text: Seq<u8>) -> Seq<DrawOp> {
    Seq::new(text.len(), |k: int| DrawOp::Char { c: text[k], x: (x + 8 * k) as u64, y: y, fg: fg, bg: bg })
}

/// A number drawn at `x`, and where the cursor ends up: zero is drawn as
/// `0` without moving the cursor; any other number in decimal.
pub open spec fn number_ops(x: u64, y: u64, fg: u32, bg: u32, n: u64) -> (Seq<DrawOp>, int) {
    if n == 0 {
        (seq![DrawOp::Char { c: 48, x: x, y: y, fg: fg, bg: bg }], x as int)
    } else {
        (chars_at(x, y, fg, bg, dec_digits(n as nat)), x + 8 * dec_digits(n as nat).len())
    }
}

/// The last `w` decimal digits of `n`, with leading zeros.
pub open spec fn fixed_digits(n: nat, w: nat) -> Seq<u8>
    decreases w,
{
    if w == 0 {
        Seq::empty()
    } else {
        fixed_digits(n / 10, (w - 1) as nat).push((48 + n % 10) as u8)
    }
}

/// The spinner frame for the time-stamp counter `tsc` at `freq` ticks per
/// second: one of `|/-\` each eighth of a second, `?` while the rate is
/// unknown.
pub open spec fn spinner_char(tsc: u64, freq: u64) -> u8 {
    if freq > 0 {
        let k = (tsc / (freq / 8)) % 4;
        if k == 0 {
            124u8
        } else if k == 1 {
            47u8
        } else if k == 2 {
            45u8
        } else {
            92u8
        }
    } else {
        63u8
    }
}

pub open spec fn mode_text(mode: DisplayMode) -> Seq<u8> {
    match mode {
        DisplayMode::RecoveryConsole => "RECOVERY".spec_bytes(),
        DisplayMode::SafeConsole => "LOGS".spec_bytes(),
        DisplayMode::KernelShell => "SHELL".spec_bytes(),
    }
}

/// What the overlay shows about a CPU.
pub open spec fn cpu_row(sx: u64, y: u64, bg: u32, id: u64, task: u64) -> Seq<DrawOp> {
    let (num, after) = number_ops((sx + 8 + 32) as u64, y, GREY, bg, id);
    let status = if task == NO_TASK {
        chars_at((after + 16) as u64, y, DARK_GREY, bg, "IDLE".spec_bytes())
    } else {
        chars_at((after + 16) as u64, y, CYAN, bg, "TASK #".spec_bytes()) + number_ops(
            (after + 16 + 48) as u64,
            y,
            CYAN,
            bg,
            task,
        ).0
    };
    chars_at((sx + 8) as u64, y, GREY, bg, "CPU ".spec_bytes()) + num + chars_at(after as u64, y, GREY, bg, ": ".spec_bytes())
        + status
}

/// What the overlay shows about the last key.
pub open spec fn key_text(scancode: u8, key: Option<char>) -> Seq<u8> {
    if scancode != 0 && scancode < 0x80 {
        "0x".spec_bytes() + seq![hex_byte((scancode / 16) as nat), hex_byte((scancode % 16) as nat)] + match key {
            Some(c) => " (".spec_bytes() + seq![c as u8] + ")".spec_bytes(),
            None => Seq::empty(),
        }
    } else {
        "None".spec_bytes()
    }
}

/// The whole overlay for a screen `width` pixels wide.
pub open spec fn overlay_ops(
    width: u64,
    bg: u32,
    task_count: u64,
    cpu_tasks: Seq<u64>,
    uptime: (u64, u64),
    tsc: u64,
    freq: u64,
    scancode: u8,
    key: Option<char>,
    mode: DisplayMode,
) -> Seq<DrawOp> {
    let sx = if width >= OVERLAY_WIDTH { (width - OVERLAY_WIDTH) as u64 } else { 0u64 };
    let vx = (sx + LABEL_WIDTH) as u64;
    chars_at(sx, 10, DEV_RED, bg, "DEV BUILD - UNSTABLE".spec_bytes())
        + chars_at(sx, 26, WHITE, bg, crate::KERNEL_VERSION.spec_bytes())
        + chars_at(sx, 42, GREY, bg, "UP:   ".spec_bytes())
        + chars_at(vx, 42, GREY, bg, fixed_digits(uptime.0 as nat, 4) + ".".spec_bytes() + fixed_digits((uptime.1 / 100) as nat, 2))
        + chars_at(sx, 58, GREY, bg, "LIVE: ".spec_bytes())
        + chars_at(vx, 58, GREY, bg, Seq::new(5, |k: int| spinner_char(tsc, freq)))
        + chars_at(sx, 74, GREY, bg, "TSK:  ".spec_bytes())
        + number_ops(vx, 74, GREY, bg, task_count).0
        + chars_at(sx, 90, GREEN, bg, "CPU CORES:".spec_bytes())
        + cpu_row(sx, 106, bg, 0, cpu_tasks[0])
        + cpu_row(sx, 122, bg, 1, cpu_tasks[1])
        + cpu_row(sx, 138, bg, 2, cpu_tasks[2])
        + cpu_row(sx, 154, bg, 3, cpu_tasks[3])
        + chars_at(sx, 170, GREY, bg, "KEY:  ".spec_bytes())
        + chars_at(vx, 170, GREY, bg, key_text(scancode, key))
        + chars_at(sx, 186, GREY, bg, "MODE: ".spec_bytes())
        + chars_at(vx, 186, GREY, bg, mode_text(mode))
}

/// Appends `text` drawn one cell apart from (`x`, `y`).
fn push_chars(ops: &mut Vec<DrawOp>, x: u64, y: u64, fg: u32, bg: u32, text: &[u8])
    requires
        x + 8 * text@.len() <= u64::MAX,
    ensures
        final(ops)@ == old(ops)@ + chars_at(x, y, fg, bg, text@),
{
    let ghost o = ops@;
    let mut i: usize = 0;
    let mut cx: u64 = x;
    while i < text.len()
        invariant
            0 <= i <= text@.len(),
            x + 8 * text@.len() <= u64::MAX,
            cx == x + 8 * i,
            ops@ == o + chars_at(x, y, fg, bg, text@).take(i as int),
        decreases text@.len() - i,
    {
        ops.push(DrawOp::Char { c: text[i], x: cx, y, fg, bg });
        assert(ops@ =~= o + chars_at(x, y, fg, bg, text@).take(i + 1));
        cx = cx + 8;
        i = i + 1;
    }
    assert(chars_at(x, y, fg, bg, text@).take(text@.len() as int) =~= chars_at(x, y, fg, bg, text@));
}

fn push_str_chars(ops: &mut Vec<DrawOp>, x: u64, y: u64, fg: u32, bg: u32, text: &str)
    requires
        x + 8 * text.spec_bytes().len() <= u64::MAX,
    ensures
        final(ops)@ == old(ops)@ + chars_at(x, y, fg, bg, text.spec_bytes()),
{
    push_chars(ops, x, y, fg, bg, text.as_bytes());
}

/// Appends a number drawn at `x`; returns where the cursor ends up.
fn push_number(ops: &mut Vec<DrawOp>, x: u64, y: u64, fg: u32, bg: u32, n: u64) -> (after: u64)
    requires
        x <= 0xFFFF_FFFF_FFFF,
    ensures
        final(ops)@ == old(ops)@ + number_ops(x, y, fg, bg, n).0,
        after == number_ops(x, y, fg, bg, n).1,
        after <= x + 160,
{
    if n == 0 {
        ops.push(DrawOp::Char { c: 48, x, y, fg, bg });
        return x;
    }
    let d = u64_decimal(n);
    proof {
        lemma_dec_digits_u64(n);
    }
    push_chars(ops, x, y, fg, bg, d.as_slice());
    x + 8 * (d.len() as u64)
}

fn fixed_digits_vec(n: u64, w: usize) -> (v: Vec<u8>)
    requires
        w <= 8,
    ensures
        v@ == fixed_digits(n as nat, w as nat),
        v@.len() == w,
    decreases w,
{
    if w == 0 {
        return Vec::new();
    }
    let mut v = fixed_digits_vec(n / 10, w - 1);
    v.push(48 + (n % 10) as u8);
    v
}

/// Whether the overlay's numbers and positions fit: the screen is not too
/// wide, the CPU list has its eight slots, and the spinner's rate is either
/// unknown or at least 8 ticks per second.
pub open spec fn overlay_ok(c: ConsoleBase, cpu_tasks: Seq<u64>, freq: u64) -> bool {
    &&& geometry_ok(c)
    &&& cpu_tasks.len() == 8
    &&& (freq == 0 || freq >= 8)
}

fn push_cpu_row(ops: &mut Vec<DrawOp>, sx: u64, y: u64, bg: u32, id: u64, task: u64)
    requires
        sx <= 0xFFFF_FFFF,
    ensures
        final(ops)@ == old(ops)@ + cpu_row(sx, y, bg, id, task),
{
    proof {
        reveal_strlit("CPU ");
        reveal_strlit(": ");
        reveal_strlit("IDLE");
        reveal_strlit("TASK #");
        vstd::utf8::is_ascii_chars_encode_utf8("CPU "@);
        vstd::utf8::is_ascii_chars_encode_utf8(": "@);
        vstd::utf8::is_ascii_chars_encode_utf8("IDLE"@);
        vstd::utf8::is_ascii_chars_encode_utf8("TASK #"@);
    }
    let ghost o = ops@;
    push_str_chars(ops, sx + 8, y, GREY, bg, "CPU ");
    let after = push_number(ops, sx + 8 + 32, y, GREY, bg, id);
    push_str_chars(ops, after, y, GREY, bg, ": ");
    if task == NO_TASK {
        push_str_chars(ops, after + 16, y, DARK_GREY, bg, "IDLE");
    } else {
        push_str_chars(ops, after + 16, y, CYAN, bg, "TASK #");
        let _ = push_number(ops, after + 16 + 48, y, CYAN, bg, task);
    }
    assert(ops@ =~= o + cpu_row(sx, y, bg, id, task));
}

fn spinner(tsc: u64, freq: u64) -> (c: u8)
    requires
        freq == 0 || freq >= 8,
    ensures
        c == spinner_char(tsc, freq),
{
    if freq > 0 {
        let k = (tsc / (freq / 8)) % 4;
        if k == 0 {
            124u8
        } else if k == 1 {
            47u8
        } else if k == 2 {
            45u8
        } else {
            92u8
        }
    } else {
        63u8
    }
}

fn key_bytes(scancode: u8, key: Option<char>) -> (v: Vec<u8>)
    ensures
        v@ == key_text(scancode, key),
        v@.len() <= 10,
{
    proof {
        reveal_strlit("0x");
        reveal_strlit(" (");
        reveal_strlit(")");
        reveal_strlit("None");
        vstd::utf8::is_ascii_chars_encode_utf8("0x"@);
        vstd::utf8::is_ascii_chars_encode_utf8(" ("@);
        vstd::utf8::is_ascii_chars_encode_utf8(")"@);
        vstd::utf8::is_ascii_chars_encode_utf8("None"@);
    }
    let mut v: Vec<u8> = Vec::new();
    if scancode != 0 && scancode < 0x80 {
        crate::text::push_str_bytes(&mut v, "0x");
        v.push(crate::text::hex_char(scancode / 16));
        v.push(crate::text::hex_char(scancode % 16));
        match key {
            Some(c) => {
                crate::text::push_str_bytes(&mut v, " (");
                v.push(c as u8);
                crate::text::push_str_bytes(&mut v, ")");
            },
            None => {},
        }
    } else {
        crate::text::push_str_bytes(&mut v, "None");
    }
    assert(v@ =~= key_text(scancode, key));
    v
}

/// Draws the overlay (see `overlay_ops`). `key` is the character the last
/// scan code stands for, if any. The console is left as it was.
pub fn render_debug_overlay(
    console: &mut ConsoleBase,
    task_count: usize,
    cpu_tasks: &[u64; 8],
    uptime: (u64, u64),
    tsc: u64,
    freq: u64,
    scancode: u8,
    key: Option<char>,
    mode: DisplayMode,
) -> (ops: Vec<DrawOp>)
    requires
        overlay_ok(*old(console), cpu_tasks@, freq),
    ensures
        *final(console) == *old(console),
        ops@ == overlay_ops(
            old(console).width,
            old(console).current_bg,
            task_count as u64,
            cpu_tasks@,
            uptime,
            tsc,
            freq,
            scancode,
            key,
            mode,
        ),
{
    proof {
        reveal_strlit("DEV BUILD - UNSTABLE");
        reveal_strlit("26m02-v0.0.7_Dev9");
        reveal_strlit("UP:   ");
        reveal_strlit(".");
        reveal_strlit("LIVE: ");
        reveal_strlit("TSK:  ");
        reveal_strlit("CPU CORES:");
        reveal_strlit("KEY:  ");
        reveal_strlit("MODE: ");
        reveal_strlit("RECOVERY");
        reveal_strlit("LOGS");
        reveal_strlit("SHELL");
        vstd::utf8::is_ascii_chars_encode_utf8("DEV BUILD - UNSTABLE"@);
        vstd::utf8::is_ascii_chars_encode_utf8(crate::KERNEL_VERSION@);
        vstd::utf8::is_ascii_chars_encode_utf8("UP:   "@);
        vstd::utf8::is_ascii_chars_encode_utf8("."@);
        vstd::utf8::is_ascii_chars_encode_utf8("LIVE: "@);
        vstd::utf8::is_ascii_chars_encode_utf8("TSK:  "@);
        vstd::utf8::is_ascii_chars_encode_utf8("CPU CORES:"@);
        vstd::utf8::is_ascii_chars_encode_utf8("KEY:  "@);
        vstd::utf8::is_ascii_chars_encode_utf8("MODE: "@);
        vstd::utf8::is_ascii_chars_encode_utf8("RECOVERY"@);
        vstd::utf8::is_ascii_chars_encode_utf8("LOGS"@);
        vstd::utf8::is_ascii_chars_encode_utf8("SHELL"@);
    }
    let bg = console.current_bg;
    let width = console.width;
    let sx: u64 = if width >= OVERLAY_WIDTH { width - OVERLAY_WIDTH } else { 0 };
    let vx = sx + LABEL_WIDTH;
    let mut ops: Vec<DrawOp> = Vec::new();
    push_str_chars(&mut ops, sx, 10, DEV_RED, bg, "DEV BUILD - UNSTABLE");
    push_str_chars(&mut ops, sx, 26, WHITE, bg, crate::KERNEL_VERSION);
    push_str_chars(&mut ops, sx, 42, GREY, bg, "UP:   ");
    let mut up = fixed_digits_vec(uptime.0, 4);
    crate::text::push_str_bytes(&mut up, ".");
    let mut frac = fixed_digits_vec(uptime.1 / 100, 2);
    up.append(&mut frac);
    push_chars(&mut ops, vx, 42, GREY, bg, up.as_slice());
    push_str_chars(&mut ops, sx, 58, GREY, bg, "LIVE: ");
    let ch = spinner(tsc, freq);
    let spin: Vec<u8> = vec![ch; 5];
    assert(spin@ =~= Seq::new(5, |k: int| spinner_char(tsc, freq)));
    push_chars(&mut ops, vx, 58, GREY, bg, spin.as_slice());
    push_str_chars(&mut ops, sx, 74, GREY, bg, "TSK:  ");
    let _ = push_number(&mut ops, vx, 74, GREY, bg, task_count as u64);
    push_str_chars(&mut ops, sx, 90, GREEN, bg, "CPU CORES:");
    push_cpu_row(&mut ops, sx, 106, bg, 0, cpu_tasks[0]);
    push_cpu_row(&mut ops, sx, 122, bg, 1, cpu_tasks[1]);
    push_cpu_row(&mut ops, sx, 138, bg, 2, cpu_tasks[2]);
    push_cpu_row(&mut ops, sx, 154, bg, 3, cpu_tasks[3]);
    push_str_chars(&mut ops, sx, 170, GREY, bg, "KEY:  ");
    let k = key_bytes(scancode, key);
    push_chars(&mut ops, vx, 170, GREY, bg, k.as_slice());
    push_str_chars(&mut ops, sx, 186, GREY, bg, "MODE: ");
    push_str_chars(&mut ops, vx, 186, GREY, bg, mode.as_str());
    proof {
        assert(ops@ =~= overlay_ops(width, bg, task_count as u64, cpu_tasks@, uptime, tsc, freq, scancode, key, mode));
    }
    ops
}

/// Timer ticks between redraws of the overlay.
pub const OVERLAY_PERIOD: u64 = 5;

/// Whether the overlay is due for a redraw: `OVERLAY_PERIOD` ticks after the
/// last one.
pub fn overlay_due(current_ticks: u64, last_update_tick: u64) -> (due: bool)
    ensures
        due == (current_ticks >= last_update_tick + OVERLAY_PERIOD),
{
    current_ticks >= last_update_tick && current_ticks - last_update_tick >= OVERLAY_PERIOD
}

} // verus!
