use deepx::apic::{get_lapic_base, has_apic, IoApic, LocalApic, LAPIC_DEFAULT_BASE, LAPIC_EOI, LAPIC_ICR_HIGH, LAPIC_ICR_LOW, LAPIC_SPURIOUS};
use deepx::boot::{get_phase, phase_name, set_phase, show_welcome, BootPhase, LOGO};
use deepx::cpuinfo::CpuidResult;
use deepx::dxb::{load_and_verify_dxb, DxbHeader};
use deepx::logger::{Logger, RtcTime, Wrapper};
use deepx::ring_buffer::{RingBuffer, LOG_BUFFER_SIZE};
use deepx::rtc::{bcd_to_bin, read_rtc_time};
use deepx::timer::{
    get_ticks, get_uptime_ms, lapic_ticks_in_10ms, lapic_timer_report, pit_report, prepare_sleep,
    sleep_ms, tick, tsc_ticks_per_sec, Pit, TickCounter, Tsc, FALLBACK_TSC_HZ,
};

fn contents(log: &RingBuffer) -> String {
    let mut out = vec![0u8; LOG_BUFFER_SIZE];
    let n = log.read_all(&mut out);
    out.truncate(n);
    String::from_utf8(out).unwrap()
}

fn t(h: u8, m: u8, s: u8) -> RtcTime {
    RtcTime { hour: h, minute: m, second: s }
}

#[test]
fn logger_line_format() {
    let mut log = RingBuffer::new();
    let l = Logger::new();
    l.info(&mut log, t(9, 5, 7), "hello");
    assert_eq!(contents(&log), "^&8[09:05:07] ^&7[^&9 INFO ^&7] ^&7hello\n");
}

#[test]
fn logger_levels_and_raw() {
    let mut log = RingBuffer::new();
    let l = Logger::new();
    l.ok(&mut log, t(12, 0, 0), "a");
    l.warn_nl(&mut log, t(1, 2, 3), "b");
    l.raw(&mut log, "|raw|");
    l.raw_line(&mut log, "line");
    l.error(&mut log, t(23, 59, 59), "c");
    l.custom(&mut log, t(0, 0, 0), " LVL ", "^&c", "d");
    let expected = "^&8[12:00:00] ^&7[^&2  OK  ^&7] ^&7a\n\
                    ^&8[01:02:03] ^&7[^&6 WARN ^&7] ^&7b|raw|line\n\
                    ^&8[23:59:59] ^&7[^&4FAILED^&7] ^&7c\n\
                    ^&8[00:00:00] ^&7[^&c LVL ^&7] ^&7d\n";
    assert_eq!(contents(&log), expected);
}

#[test]
fn logger_other_levels() {
    let mut log = RingBuffer::new();
    let l = Logger::new();
    l.wait(&mut log, t(0, 0, 1), "w");
    l.debug(&mut log, t(0, 0, 2), "d");
    l.tunnel(&mut log, t(0, 0, 3), "t");
    l.scheduler(&mut log, t(0, 0, 4), "s");
    l.info_nl(&mut log, t(0, 0, 5), "i");
    l.ok_nl(&mut log, t(0, 0, 6), "o");
    l.error_nl(&mut log, t(0, 0, 7), "e");
    l.wait_nl(&mut log, t(0, 0, 8), "x");
    l.debug_nl(&mut log, t(0, 0, 9), "y");
    let c = contents(&log);
    assert!(c.starts_with("^&8[00:00:01] ^&7[^&e WAIT ^&7] ^&7w\n"));
    assert!(c.contains("^&7[^&5 DBUG ^&7] ^&7d\n"));
    assert!(c.contains("^&7[^&3TUNNEL^&7] ^&7t\n"));
    assert!(c.contains("^&7[^&e SCED ^&7] ^&7s\n"));
    assert!(c.ends_with("^&8[00:00:09] ^&7[^&5 DBUG ^&7] ^&7y"));
}

#[test]
fn logger_cuts_long_lines() {
    let mut log = RingBuffer::new();
    let long = "x".repeat(600);
    Logger::new().raw(&mut log, &long);
    assert_eq!(contents(&log).len(), 512);
    // A cut through a multi-byte character drops the whole line.
    let mut log = RingBuffer::new();
    let mut s = "y".repeat(511);
    s.push('é');
    Logger::new().raw(&mut log, &s);
    assert_eq!(contents(&log), "");
}

#[test]
fn wrapper_truncates() {
    let mut w = Wrapper::new(vec![0u8; 4]);
    w.write_str("ab");
    w.write_bytes(b"cdef");
    assert_eq!(w.as_str(), "abcd");
}

#[test]
fn boot_phases() {
    let mut log = RingBuffer::new();
    let mut phase = BootPhase::Early;
    set_phase(&mut phase, BootPhase::Early, &mut log, t(0, 0, 0));
    assert_eq!(contents(&log), "");
    set_phase(&mut phase, BootPhase::MemoryInit, &mut log, t(0, 0, 1));
    assert_eq!(get_phase(&phase), BootPhase::MemoryInit);
    assert_eq!(contents(&log), "^&8[00:00:01] ^&7[^&2  OK  ^&7] ^&7BootPhase changed: ^&fMemoryInit\n");
    assert_eq!(phase_name(BootPhase::SystunnelInit), "SystunnelInit");
    assert_eq!(phase_name(BootPhase::Panic), "Panic");
}

#[test]
fn welcome_banner() {
    let mut log = RingBuffer::new();
    show_welcome(&mut log);
    assert_eq!(contents(&log), format!("{}\n\n", LOGO));
}

#[test]
fn rtc_bcd() {
    assert_eq!(bcd_to_bin(0x59), 59);
    assert_eq!(bcd_to_bin(0x00), 0);
    assert_eq!(read_rtc_time(0x07, 0x45, 0x23), (23, 45, 7));
}

#[test]
fn dxb_validation() {
    assert_eq!(load_and_verify_dxb(&[0x7F, b'D', b'X']), Err("File too small for DXB header"));
    let mut img = vec![0u8; 20];
    assert_eq!(load_and_verify_dxb(&img), Err("Invalid DXB magic signature"));
    img[0..4].copy_from_slice(&[0x7F, b'D', b'X', b'B']);
    img[4] = 2;
    assert_eq!(load_and_verify_dxb(&img), Err("Unsupported DXB version"));
    img[4] = 1;
    img[6..14].copy_from_slice(&0x0040_1000u64.to_le_bytes());
    img[14] = 3;
    img[16..20].copy_from_slice(&0xDEAD_BEEFu32.to_le_bytes());
    assert_eq!(load_and_verify_dxb(&img), Ok(0x0040_1000));
    let h = DxbHeader::parse(&img);
    assert_eq!(h.version, 1);
    assert_eq!(h.section_count, 3);
    assert_eq!(h.checksum, 0xDEAD_BEEF);
    assert_eq!(h.magic, [0x7F, b'D', b'X', b'B']);
}

#[test]
fn tick_counter() {
    let mut c = TickCounter { ticks: 41 };
    tick(&mut c);
    assert_eq!(get_ticks(&c), 42);
    assert_eq!(get_uptime_ms(&c), 420);
    assert!(sleep_ms(&c, 40, 30));
    assert!(!sleep_ms(&c, 40, 20));
    let mut w = TickCounter { ticks: u64::MAX };
    tick(&mut w);
    assert_eq!(w.ticks, 0);
}

#[test]
fn pit_programming() {
    let mut p = Pit { freq: 0 };
    assert_eq!(p.init(100), 11931);
    assert_eq!(p.get_freq(), 100);
    assert_eq!(p.init(1), (1193182u32 % 65536) as u16);
    assert_eq!(prepare_sleep(10), 11930);
    assert_eq!(prepare_sleep(100), 0xFFFF);
}

#[test]
fn tsc_uptime_and_calibration() {
    let tsc = Tsc { ticks_per_sec: 1000, boot_tsc: 500 };
    assert_eq!(tsc.get_uptime(3750), (3, 2500));
    assert_eq!(tsc.get_uptime(100), (0, 0));
    assert_eq!(Tsc { ticks_per_sec: 0, boot_tsc: 0 }.get_uptime(99), (0, 0));
    assert_eq!(tsc_ticks_per_sec(30_000_000, 100, 100), 30_000_000);
    assert_eq!(tsc_ticks_per_sec(12345, 0, 100), 12345);

    let mut log = RingBuffer::new();
    let mut tsc = Tsc { ticks_per_sec: 0, boot_tsc: 0 };
    tsc.begin_calibration(77, &mut log, t(0, 0, 0));
    assert_eq!(tsc.boot_tsc, 77);
    tsc.finish_calibration(1000, 30_001_000, 100, &mut log, t(0, 0, 1));
    assert_eq!(tsc.get_tsc_frequency(), 30_000_000);
    assert_eq!(
        contents(&log),
        "^&8[00:00:00] ^&7[^&e WAIT ^&7] ^&7TSC: Calibration started...\n\
         ^&8[00:00:01] ^&7[^&2  OK  ^&7] ^&7TSC: Calibrated! Freq: ^&f30 MHz ^&7(Elapsed TSC: ^&f30000000, ^&7PIT: ^&f100 Hz^&7)\n"
    );
    let mut log = RingBuffer::new();
    tsc.calibration_timed_out(&mut log, t(0, 0, 2));
    assert_eq!(tsc.ticks_per_sec, FALLBACK_TSC_HZ);
    assert!(contents(&log).contains("TSC: Calibration timeout! Using fallback ^&f2GHz."));
}

#[test]
fn timer_reports() {
    let mut log = RingBuffer::new();
    pit_report(0, &mut log, t(0, 0, 0));
    pit_report(100, &mut log, t(0, 0, 0));
    lapic_timer_report(0, &mut log, t(0, 0, 0));
    lapic_timer_report(625000, &mut log, t(0, 0, 0));
    let c = contents(&log);
    assert!(c.contains("[^&6 WARN ^&7] ^&7PIT Timer status: initialized (unknown frequency)\n"));
    assert!(c.contains("[^&2  OK  ^&7] ^&7PIT Timer initialized at ^&f100 Hz\n"));
    assert!(c.contains("^&7LAPIC Timer status: initialized (unknown frequency)\n"));
    assert!(c.contains("^&7LAPIC Timer calibrated via PIT and initialized at ^&f625000 Hz\n"));
    assert_eq!(lapic_ticks_in_10ms(0xFFFF_0000), 0xFFFF);
}

#[test]
fn apic_register_writes() {
    let leaf1 = CpuidResult { eax: 0, ebx: 0, ecx: 0, edx: 1 << 9 };
    assert!(has_apic(leaf1));
    assert!(!has_apic(CpuidResult { eax: 0, ebx: 0, ecx: 0, edx: !(1 << 9) }));
    assert_eq!(get_lapic_base(), LAPIC_DEFAULT_BASE);
    let l = LocalApic::new(0xFEE0_0000);
    assert_eq!(l.register_address(LAPIC_EOI), 0xFEE0_00B0);
    assert_eq!(l.init(0x10), (LAPIC_SPURIOUS, 0x1FF));
    assert_eq!(l.eoi(), (LAPIC_EOI, 0));
    assert_eq!(l.send_init(3), [(LAPIC_ICR_HIGH, 0x0300_0000), (LAPIC_ICR_LOW, 0x4500)]);
    assert_eq!(l.send_sipi(2, 0x08), [(LAPIC_ICR_HIGH, 0x0200_0000), (LAPIC_ICR_LOW, 0x4608)]);
    let io = IoApic::new(0xFEC0_0000);
    assert_eq!(io.set_irq(1, 0x21), [(0x13, 0), (0x12, 0x21)]);
}
