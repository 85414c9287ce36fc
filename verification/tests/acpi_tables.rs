use deepx::acpi::{
    parse_rsdt, parse_xsdt, process_table, select_root_table, shutdown_plan, table_is_processable, AcpiState,
    RootTable, Rsdp,
    SdtHeader, SleepWrite,
};
use deepx::logger::RtcTime;
use deepx::ring_buffer::{RingBuffer, LOG_BUFFER_SIZE};

const T: RtcTime = RtcTime { hour: 0, minute: 0, second: 5 };

fn contents(log: &RingBuffer) -> String {
    let mut out = vec![0u8; LOG_BUFFER_SIZE];
    let n = log.read_all(&mut out);
    out.truncate(n);
    String::from_utf8(out).unwrap()
}

fn rsdp_bytes(revision: u8, rsdt: u32, xsdt: u64) -> Vec<u8> {
    let mut b = vec![0u8; 36];
    b[0..8].copy_from_slice(b"RSD PTR ");
    b[8] = 0x42;
    b[9..15].copy_from_slice(b"BOCHS ");
    b[15] = revision;
    b[16..20].copy_from_slice(&rsdt.to_le_bytes());
    b[20..24].copy_from_slice(&36u32.to_le_bytes());
    b[24..32].copy_from_slice(&xsdt.to_le_bytes());
    b[32] = 0x99;
    b
}

fn table(sig: &[u8; 4], body: &[u8]) -> Vec<u8> {
    let mut t = vec![0u8; 36];
    t[0..4].copy_from_slice(sig);
    let len = (36 + body.len()) as u32;
    t[4..8].copy_from_slice(&len.to_le_bytes());
    t[8] = 1;
    t[10..16].copy_from_slice(b"OEMID ");
    t.extend_from_slice(body);
    t
}

fn madt(entries: &[[u8; 8]]) -> Vec<u8> {
    let mut body = vec![0u8; 8];
    for e in entries {
        body.extend_from_slice(e);
    }
    table(b"APIC", &body)
}

fn lapic(apic_id: u8, enabled: bool) -> [u8; 8] {
    [0, 8, apic_id, apic_id, enabled as u8, 0, 0, 0]
}

#[test]
fn rsdp_parsing_and_root_choice() {
    let r = Rsdp::from_bytes(&rsdp_bytes(2, 0x7FE0_000, 0x7FE1_000));
    assert!(r.is_valid());
    assert_eq!(r.revision, 2);
    assert_eq!(&r.oem_id, b"BOCHS ");
    assert_eq!(r.checksum, 0x42);
    assert_eq!(r.extended_checksum, 0x99);
    assert_eq!(r.length, 36);
    let mut log = RingBuffer::new();
    assert_eq!(select_root_table(&r, &mut log, T), Some(RootTable::Xsdt(0x7FE1_000)));
    assert_eq!(
        contents(&log),
        "^&8[00:00:05] ^&7[^&9 INFO ^&7] ^&7ACPI: Found RSDP v2, using XSDT at 0x7fe1000\n"
    );
    let old = Rsdp::from_bytes(&rsdp_bytes(0, 0xE_0000, 0x1234));
    let mut log = RingBuffer::new();
    assert_eq!(select_root_table(&old, &mut log, T), Some(RootTable::Rsdt(0xE_0000)));
    assert!(contents(&log).ends_with("ACPI: Found RSDP v0, using RSDT at 0xe0000\n"));
    let no_x = Rsdp::from_bytes(&rsdp_bytes(2, 0xE_0000, 0));
    assert_eq!(select_root_table(&no_x, &mut RingBuffer::new(), T), Some(RootTable::Rsdt(0xE_0000)));
    let mut bad = rsdp_bytes(2, 1, 2);
    bad[0] = b'X';
    let bad = Rsdp::from_bytes(&bad);
    assert!(!bad.is_valid());
    let mut log = RingBuffer::new();
    assert_eq!(select_root_table(&bad, &mut log, T), None);
    assert!(contents(&log).ends_with("[^&4FAILED^&7] ^&7ACPI: Invalid RSDP signature!\n"));
}

#[test]
fn sdt_header_fields() {
    let t = table(b"FACP", &[0u8; 8]);
    let h = SdtHeader::from_bytes(&t);
    assert_eq!(&h.signature, b"FACP");
    assert_eq!(h.length, 44);
    assert_eq!(h.revision, 1);
    assert_eq!(&h.oem_id, b"OEMID ");
}

#[test]
fn root_table_entries() {
    let mut body = Vec::new();
    body.extend_from_slice(&0x1000u32.to_le_bytes());
    body.extend_from_slice(&0x2000u32.to_le_bytes());
    body.extend_from_slice(&[0xAA, 0xBB]);
    let rsdt = table(b"RSDT", &body);
    assert_eq!(parse_rsdt(&rsdt), vec![0x1000, 0x2000]);
    let mut body = Vec::new();
    body.extend_from_slice(&0x1_0000_1000u64.to_le_bytes());
    let xsdt = table(b"XSDT", &body);
    assert_eq!(parse_xsdt(&xsdt), vec![0x1_0000_1000]);
    assert!(parse_xsdt(&table(b"XSDT", &[])).is_empty());
}

#[test]
fn madt_records_enabled_processors() {
    let mut state = AcpiState::new();
    assert_eq!(state.lapic_ids.len(), 256);
    let t = madt(&[lapic(0, true), lapic(1, false), lapic(2, true), [1, 8, 0, 0, 0, 0, 0, 0]]);
    let mut log = RingBuffer::new();
    process_table(&mut state, &t, 0xBFF0_0000, &mut log, T);
    assert_eq!(state.cpu_count, 2);
    assert_eq!(&state.lapic_ids[..3], &[0, 2, 0]);
    assert_eq!(
        contents(&log),
        "^&8[00:00:05] ^&7[^&9 INFO ^&7] ^&7ACPI: Found table [APIC] at 0xbff00000\n\
         ^&8[00:00:05] ^&7[^&2  OK  ^&7] ^&7ACPI: Found 2 CPU cores.\n"
    );
    let more = madt(&[lapic(7, true)]);
    process_table(&mut state, &more, 0x1000, &mut RingBuffer::new(), T);
    assert_eq!(state.cpu_count, 3);
    assert_eq!(&state.lapic_ids[..4], &[0, 2, 7, 0]);
}

#[test]
fn fadt_and_shutdown() {
    let mut body = vec![0u8; 44];
    body[48 - 36..52 - 36].copy_from_slice(&0xB2u32.to_le_bytes());
    body[52 - 36] = 0xF0;
    body[64 - 36..68 - 36].copy_from_slice(&0x604u32.to_le_bytes());
    body[68 - 36..72 - 36].copy_from_slice(&0u32.to_le_bytes());
    let t = table(b"FACP", &body);
    let mut state = AcpiState::new();
    let mut log = RingBuffer::new();
    process_table(&mut state, &t, 0x7FE2_000, &mut log, T);
    assert_eq!(state.pm1a_cnt_blk, 0x604);
    assert_eq!(state.pm1b_cnt_blk, 0);
    assert_eq!(state.smi_cmd, 0xB2);
    assert_eq!(state.acpi_enable, 0xF0);
    assert!(contents(&log).ends_with("ACPI: FADT data saved (PM1a: 0x604, SMI: 0xb2)\n"));
    let plan = shutdown_plan(&state);
    assert_eq!(plan.smi_enable, Some((0xB2, 0xF0)));
    assert_eq!(
        plan.attempts,
        vec![
            SleepWrite { port_a: 0x604, port_b: None, value: (7 << 10) | 0x2000 },
            SleepWrite { port_a: 0x604, port_b: None, value: (5 << 10) | 0x2000 },
            SleepWrite { port_a: 0x604, port_b: None, value: 0x2000 },
            SleepWrite { port_a: 0x604, port_b: None, value: (0x34 << 10 | 0x2000) & 0xFFFF },
        ]
    );
    let none = shutdown_plan(&AcpiState::new());
    assert_eq!(none.smi_enable, None);
    assert!(none.attempts.is_empty());
}

#[test]
fn other_tables_are_only_reported() {
    let t = table(b"HPET", &[0u8; 20]);
    let mut state = AcpiState::new();
    let mut log = RingBuffer::new();
    process_table(&mut state, &t, 0x10, &mut log, T);
    assert_eq!(state.cpu_count, 0);
    assert_eq!(contents(&log), "^&8[00:00:05] ^&7[^&9 INFO ^&7] ^&7ACPI: Found table [HPET] at 0x10\n");
    let odd = table(&[0xFF, b'A', b'B', b'C'], &[]);
    let mut log = RingBuffer::new();
    process_table(&mut state, &odd, 0x20, &mut log, T);
    assert!(contents(&log).ends_with("ACPI: Found table [????] at 0x20\n"));
}

#[test]
fn processable_tables() {
    let state = AcpiState::new();
    assert!(table_is_processable(&state, &madt(&[lapic(0, true), lapic(1, true)])));
    assert!(!table_is_processable(&state, &madt(&[[0, 0, 0, 0, 1, 0, 0, 0]])));
    let mut cut = madt(&[lapic(0, true)]);
    cut.truncate(cut.len() - 3);
    assert!(!table_is_processable(&state, &cut));
    assert!(!table_is_processable(&state, &table(b"FACP", &[0u8; 10])));
    assert!(table_is_processable(&state, &table(b"FACP", &[0u8; 44])));
    assert!(table_is_processable(&state, &table(b"HPET", &[])));
    assert!(!table_is_processable(&state, &[0u8; 10]));
    let mut full = AcpiState::new();
    full.cpu_count = 256;
    assert!(!table_is_processable(&full, &madt(&[lapic(3, true)])));
    assert!(table_is_processable(&full, &madt(&[lapic(3, false)])));
}
