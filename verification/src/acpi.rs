//! ACPI tables: the RSDP, the root tables that list the other tables, the
//! MADT (which CPUs there are) and the FADT (the power management ports).
//! Each table is read from its bytes, laid out as the firmware packs them.
use vstd::prelude::*;
use vstd::string::StringSliceAdditionalSpecFns;
use vstd::utf8::{valid_utf8, valid_utf8_concat, decode_utf8};
use crate::bytes::{le_u32_at, le_u64_at, read_u32_le, read_u64_le};
use crate::ring_buffer::RingBuffer;
use crate::logger::{Logger, RtcTime};
use crate::text::{lower_hex_digits, dec_digits, lemma_str_bytes_valid, str_from_utf8};
use crate::message::{
    error_logged, info_logged, ok_logged, push_text, push_hex, push_dec, empty_text, log_info, log_ok,
};

verus! {

/// Size of the RSDP of ACPI 2.0.
pub const RSDP_SIZE: usize = 36;

/// Size of the header every system description table starts with.
pub const SDT_HEADER_SIZE: usize = 36;

/// Size of the MADT before its entries.
pub const MADT_SIZE: usize = 44;

/// Size of the part of the FADT that is read.
pub const FADT_SIZE: usize = 80;

/// Most CPUs whose local APIC ids are recorded.
pub const MAX_CPUS: usize = 256;

/// The root system description pointer.
pub struct Rsdp {
    pub signature: [u8; 8],
    pub checksum: u8,
    pub oem_id: [u8; 6],
    pub revision: u8,
    pub rsdt_address: u32,
    pub length: u32,
    pub xsdt_address: u64,
    pub extended_checksum: u8,
    pub reserved: [u8; 3],
}

/// `RSD PTR `, the RSDP signature.
pub open spec fn rsdp_signature() -> Seq<u8> {
    seq![82u8, 83u8, 68u8, 32u8, 80u8, 84u8, 82u8, 32u8]
}

impl Rsdp {
    /// Reads an RSDP from its 36 bytes.
    pub fn from_bytes(b: &[u8]) -> (r: Self)
        requires
            b@.len() >= RSDP_SIZE,
        ensures
            r.signature@ == b@.subrange(0, 8),
            r.checksum == b@[8],
            r.oem_id@ == b@.subrange(9, 15),
            r.revision == b@[15],
            r.rsdt_address == le_u32_at(b@, 16),
            r.length == le_u32_at(b@, 20),
            r.xsdt_address == le_u64_at(b@, 24),
            r.extended_checksum == b@[32],
            r.reserved@ == b@.subrange(33, 36),
    {
        let signature = [b[0], b[1], b[2], b[3], b[4], b[5], b[6], b[7]];
        let oem_id = [b[9], b[10], b[11], b[12], b[13], b[14]];
        let reserved = [b[33], b[34], b[35]];
        assert(signature@ =~= b@.subrange(0, 8));
        assert(oem_id@ =~= b@.subrange(9, 15));
        assert(reserved@ =~= b@.subrange(33, 36));
        Rsdp {
            signature,
            checksum: b[8],
            oem_id,
            revision: b[15],
            rsdt_address: read_u32_le(b, 16),
            length: read_u32_le(b, 20),
            xsdt_address: read_u64_le(b, 24),
            extended_checksum: b[32],
            reserved,
        }
    }

    /// Whether the signature is `RSD PTR `.
    pub fn is_valid(&self) -> (r: bool)
        ensures
            r == (self.signature@ == rsdp_signature()),
    {
        let s = &self.signature;
        let r = s[0] == 82 && s[1] == 83 && s[2] == 68 && s[3] == 32 && s[4] == 80 && s[5] == 84 && s[6] == 82
            && s[7] == 32;
        assert(r ==> self.signature@ =~= rsdp_signature());
        r
    }
}

/// The header of a system description table.
pub struct SdtHeader {
    pub signature: [u8; 4],
    pub length: u32,
    pub revision: u8,
    pub checksum: u8,
    pub oem_id: [u8; 6],
    pub oem_table_id: [u8; 8],
    pub oem_revision: u32,
    pub creator_id: u32,
    pub creator_revision: u32,
}

impl SdtHeader {
    /// Reads a table header from its 36 bytes.
    pub fn from_bytes(b: &[u8]) -> (h: Self)
        requires
            b@.len() >= SDT_HEADER_SIZE,
        ensures
            h.signature@ == b@.subrange(0, 4),
            h.length == le_u32_at(b@, 4),
            h.revision == b@[8],
            h.checksum == b@[9],
            h.oem_id@ == b@.subrange(10, 16),
            h.oem_table_id@ == b@.subrange(16, 24),
            h.oem_revision == le_u32_at(b@, 24),
            h.creator_id == le_u32_at(b@, 28),
            h.creator_revision == le_u32_at(b@, 32),
    {
        let signature = [b[0], b[1], b[2], b[3]];
        let oem_id = [b[10], b[11], b[12], b[13], b[14], b[15]];
        let oem_table_id = [b[16], b[17], b[18], b[19], b[20], b[21], b[22], b[23]];
        assert(signature@ =~= b@.subrange(0, 4));
        assert(oem_id@ =~= b@.subrange(10, 16));
        assert(oem_table_id@ =~= b@.subrange(16, 24));
        SdtHeader {
            signature,
            length: read_u32_le(b, 4),
            revision: b[8],
            checksum: b[9],
            oem_id,
            oem_table_id,
            oem_revision: read_u32_le(b, 24),
            creator_id: read_u32_le(b, 28),
            creator_revision: read_u32_le(b, 32),
        }
    }
}

/// The part of the fixed ACPI description table that is read.
pub struct Fadt {
    pub header: SdtHeader,
    pub firmware_ctrl: u32,
    pub dsdt: u32,
    pub preferred_pm_profile: u8,
    pub sci_interrupt: u16,
    pub smi_command_port: u32,
    pub acpi_enable: u8,
    pub acpi_disable: u8,
    pub s4bios_req: u8,
    pub pstate_control: u8,
    pub pm1a_event_block: u32,
    pub pm1b_event_block: u32,
    pub pm1a_control_block: u32,
    pub pm1b_control_block: u32,
    pub pm2_control_block: u32,
    pub pm_timer_block: u32,
}

/// The multiple APIC description table before its entries.
pub struct Madt {
    pub header: SdtHeader,
    pub lapic_addr: u32,
    pub flags: u32,
}

/// The two bytes every MADT entry starts with.
pub struct MadtEntryHeader {
    pub entry_type: u8,
    pub length: u8,
}

/// A MADT entry of type 0: one processor's local APIC.
pub struct MadtLocalApic {
    pub header: MadtEntryHeader,
    pub processor_id: u8,
    pub apic_id: u8,
    pub flags: u32,
}

/// The table length a header gives.
pub open spec fn table_length(t: Seq<u8>) -> nat {
    le_u32_at(t, 4) as nat
}

/// The entries of a root table: after the header, `width`-byte addresses
/// (4 in the RSDT, 8 in the XSDT), as many as the length leaves room for.
pub open spec fn root_entries(t: Seq<u8>, width: nat) -> Seq<u64> {
    Seq::new(
        ((table_length(t) - SDT_HEADER_SIZE) as nat / width) as nat,
        |i: int|
            if width == 4 {
                le_u32_at(t, SDT_HEADER_SIZE + 4 * i) as u64
            } else {
                le_u64_at(t, SDT_HEADER_SIZE + 8 * i)
            },
    )
}

/// Whether a table's bytes hold at least its header and its whole length.
pub open spec fn table_in_bytes(t: Seq<u8>) -> bool {
    t.len() >= SDT_HEADER_SIZE && table_length(t) >= SDT_HEADER_SIZE && t.len() >= table_length(t)
}

/// The addresses of the tables an RSDT lists.
pub fn parse_rsdt(t: &[u8]) -> (entries: Vec<u64>)
    requires
        table_in_bytes(t@),
    ensures
        entries@ == root_entries(t@, 4),
{
    let _ = t.len();
    let length = read_u32_le(t, 4) as usize;
    let count = (length - SDT_HEADER_SIZE) / 4;
    assert(4 * count <= length - SDT_HEADER_SIZE) by (nonlinear_arith)
        requires
            count == (length - SDT_HEADER_SIZE) / 4,
            length >= SDT_HEADER_SIZE,
    ;
    let mut entries: Vec<u64> = Vec::new();
    let mut i: usize = 0;
    while i < count
        invariant
            count == (table_length(t@) - SDT_HEADER_SIZE) as nat / 4,
            SDT_HEADER_SIZE + 4 * count <= t@.len(),
            t@.len() <= usize::MAX,
            0 <= i <= count,
            entries@ == root_entries(t@, 4).take(i as int),
        decreases count - i,
    {
        let a = read_u32_le(t, SDT_HEADER_SIZE + 4 * i) as u64;
        entries.push(a);
        assert(entries@ =~= root_entries(t@, 4).take(i + 1));
        i = i + 1;
    }
    assert(entries@ =~= root_entries(t@, 4));
    entries
}

/// The addresses of the tables an XSDT lists.
pub fn parse_xsdt(t: &[u8]) -> (entries: Vec<u64>)
    requires
        table_in_bytes(t@),
    ensures
        entries@ == root_entries(t@, 8),
{
    let _ = t.len();
    let length = read_u32_le(t, 4) as usize;
    let count = (length - SDT_HEADER_SIZE) / 8;
    assert(8 * count <= length - SDT_HEADER_SIZE) by (nonlinear_arith)
        requires
            count == (length - SDT_HEADER_SIZE) / 8,
            length >= SDT_HEADER_SIZE,
    ;
    let mut entries: Vec<u64> = Vec::new();
    let mut i: usize = 0;
    while i < count
        invariant
            count == (table_length(t@) - SDT_HEADER_SIZE) as nat / 8,
            SDT_HEADER_SIZE + 8 * count <= t@.len(),
            t@.len() <= usize::MAX,
            0 <= i <= count,
            entries@ == root_entries(t@, 8).take(i as int),
        decreases count - i,
    {
        let a = read_u64_le(t, SDT_HEADER_SIZE + 8 * i);
        entries.push(a);
        assert(entries@ =~= root_entries(t@, 8).take(i + 1));
        i = i + 1;
    }
    assert(entries@ =~= root_entries(t@, 8));
    entries
}

/// Which root table lists the other tables.
#[derive(Debug, Clone, Copy, PartialEq, Eq, Structural)]
pub enum RootTable {
    /// The 64-bit XSDT at this address.
    Xsdt(u64),
    /// The 32-bit RSDT at this address.
    Rsdt(u64),
}

pub open spec fn rsdp_msg(revision: u8, kind: Seq<u8>, addr: u64) -> Seq<u8> {
    "ACPI: Found RSDP v".spec_bytes() + dec_digits(revision as nat) + ", using ".spec_bytes() + kind
        + " at 0x".spec_bytes() + lower_hex_digits(addr as nat)
}

/// The root table an RSDP points to: the XSDT from revision 2 on when its
/// address is set, else the RSDT; none for a bad signature.
pub open spec fn root_table_of(r: Rsdp) -> Option<RootTable> {
    if r.signature@ != rsdp_signature() {
        None
    } else if r.revision >= 2 && r.xsdt_address != 0 {
        Some(RootTable::Xsdt(r.xsdt_address))
    } else {
        Some(RootTable::Rsdt(r.rsdt_address as u64))
    }
}

/// Picks the root table and reports the choice (or the bad signature).
pub fn select_root_table(rsdp: &Rsdp, log: &mut RingBuffer, time: RtcTime) -> (r: Option<RootTable>)
    requires
        old(log).wf(),
    ensures
        final(log).wf(),
        r == root_table_of(*rsdp),
        r is None ==> final(log).contents() == error_logged(
            old(log).contents(),
            time,
            "ACPI: Invalid RSDP signature!".spec_bytes(),
        ),
        r matches Some(RootTable::Xsdt(a)) ==> final(log).contents() == info_logged(
            old(log).contents(),
            time,
            rsdp_msg(rsdp.revision, "XSDT".spec_bytes(), a),
        ),
        r matches Some(RootTable::Rsdt(a)) ==> final(log).contents() == info_logged(
            old(log).contents(),
            time,
            rsdp_msg(rsdp.revision, "RSDT".spec_bytes(), a),
        ),
{
    if !rsdp.is_valid() {
        Logger::new().error(log, time, "ACPI: Invalid RSDP signature!");
        return None;
    }
    let revision = rsdp.revision;
    let xsdt_addr = rsdp.xsdt_address;
    let rsdt_addr = rsdp.rsdt_address as u64;
    let use_xsdt = revision >= 2 && xsdt_addr != 0;
    let addr = if use_xsdt { xsdt_addr } else { rsdt_addr };
    let mut msg = empty_text();
    push_text(&mut msg, "ACPI: Found RSDP v");
    push_dec(&mut msg, revision as u64);
    push_text(&mut msg, ", using ");
    if use_xsdt {
        push_text(&mut msg, "XSDT");
    } else {
        push_text(&mut msg, "RSDT");
    }
    push_text(&mut msg, " at 0x");
    push_hex(&mut msg, addr);
    if use_xsdt {
        assert(msg@ =~= rsdp_msg(revision, "XSDT".spec_bytes(), addr));
        log_info(log, time, &msg);
        Some(RootTable::Xsdt(addr))
    } else {
        assert(msg@ =~= rsdp_msg(revision, "RSDT".spec_bytes(), addr));
        log_info(log, time, &msg);
        Some(RootTable::Rsdt(addr))
    }
}

/// What was learnt from the tables: the power management ports from the
/// FADT, and the local APIC ids of the enabled processors from the MADT.
pub struct AcpiState {
    pub pm1a_cnt_blk: u32,
    pub pm1b_cnt_blk: u32,
    pub smi_cmd: u32,
    pub acpi_enable: u8,
    pub cpu_count: u32,
    pub lapic_ids: Vec<u8>,
}

impl AcpiState {
    /// Nothing learnt yet: all zero, room for 256 APIC ids.
    pub fn new() -> (s: Self)
        ensures
            s.pm1a_cnt_blk == 0,
            s.pm1b_cnt_blk == 0,
            s.smi_cmd == 0,
            s.acpi_enable == 0,
            s.cpu_count == 0,
            s.lapic_ids@ == Seq::new(MAX_CPUS as nat, |i: int| 0u8),
    {
        let ids: Vec<u8> = vec![0u8; MAX_CPUS];
        assert(ids@ =~= Seq::new(MAX_CPUS as nat, |i: int| 0u8));
        AcpiState { pm1a_cnt_blk: 0, pm1b_cnt_blk: 0, smi_cmd: 0, acpi_enable: 0, cpu_count: 0, lapic_ids: ids }
    }
}

/// `APIC`, the MADT signature, and `FACP`, the FADT's.
pub open spec fn madt_signature() -> Seq<u8> {
    seq![65u8, 80u8, 73u8, 67u8]
}

pub open spec fn fadt_signature() -> Seq<u8> {
    seq![70u8, 65u8, 67u8, 80u8]
}

/// Whether the walk over the MADT entries from `p` up to `end` gets through:
/// each entry it reaches has a length and lies in the bytes.
pub open spec fn madt_walk_ok(t: Seq<u8>, p: int, end: int) -> bool
    decreases end - p,
{
    if p >= end {
        true
    } else if p < 0 || p + 2 > t.len() {
        false
    } else {
        let len = t[p + 1] as int;
        if len <= 0 {
            false
        } else {
            (t[p] == 0 ==> p + 8 <= t.len()) && (p + len >= end || madt_walk_ok(t, p + len, end))
        }
    }
}

/// The APIC ids of the enabled local APIC entries of the walk, in order.
pub open spec fn madt_ids(t: Seq<u8>, p: int, end: int) -> Seq<u8>
    decreases end - p,
{
    if p >= end || p < 0 || p + 2 > t.len() {
        Seq::empty()
    } else {
        let len = t[p + 1] as int;
        let rest = if len <= 0 || p + len >= end {
            Seq::empty()
        } else {
            madt_ids(t, p + len, end)
        };
        if len <= 0 {
            Seq::empty()
        } else if t[p] == 0 && p + 8 <= t.len() && le_u32_at(t, p + 4) & 1 != 0 {
            seq![t[p + 3]] + rest
        } else {
            rest
        }
    }
}

/// The text a table's signature is shown as: itself, or `????` when it is
/// not UTF-8.
pub open spec fn signature_text(t: Seq<u8>) -> Seq<u8> {
    if valid_utf8(t.subrange(0, 4)) {
        t.subrange(0, 4)
    } else {
        "????".spec_bytes()
    }
}

pub open spec fn found_table_msg(t: Seq<u8>, addr: u64) -> Seq<u8> {
    "ACPI: Found table [".spec_bytes() + signature_text(t) + "] at 0x".spec_bytes() + lower_hex_digits(addr as nat)
}

pub open spec fn cores_msg(count: u32) -> Seq<u8> {
    "ACPI: Found ".spec_bytes() + dec_digits(count as nat) + " CPU cores.".spec_bytes()
}

pub open spec fn fadt_msg(pm1a: u32, smi: u32) -> Seq<u8> {
    "ACPI: FADT data saved (PM1a: 0x".spec_bytes() + lower_hex_digits(pm1a as nat) + ", SMI: 0x".spec_bytes()
        + lower_hex_digits(smi as nat) + ")".spec_bytes()
}

/// Whether a table can be processed: its bytes hold the header, and for the
/// MADT every entry walked and room for the processors it adds; for the FADT
/// the fields that are read.
pub open spec fn table_processable(state: AcpiState, t: Seq<u8>) -> bool {
    &&& t.len() >= SDT_HEADER_SIZE
    &&& state.lapic_ids@.len() == MAX_CPUS
    &&& state.cpu_count <= MAX_CPUS
    &&& t.subrange(0, 4) == madt_signature() ==> madt_walk_ok(t, MADT_SIZE as int, table_length(t) as int)
        && state.cpu_count + madt_ids(t, MADT_SIZE as int, table_length(t) as int).len() <= MAX_CPUS
    &&& t.subrange(0, 4) == fadt_signature() ==> t.len() >= FADT_SIZE
}

fn is_signature(t: &[u8], a: u8, b: u8, c: u8, d: u8) -> (r: bool)
    requires
        t@.len() >= 4,
    ensures
        r == (t@.subrange(0, 4) == seq![a, b, c, d]),
{
    let r = t[0] == a && t[1] == b && t[2] == c && t[3] == d;
    assert(r ==> t@.subrange(0, 4) =~= seq![a, b, c, d]);
    r
}

/// Walks the MADT entries like `walk_madt` without recording anything: the
/// number of enabled processors the walk finds, or nothing when the walk
/// does not get through.
fn madt_scan(t: &[u8]) -> (r: Option<u64>)
    requires
        t@.len() >= SDT_HEADER_SIZE,
    ensures
        r is Some <==> madt_walk_ok(t@, MADT_SIZE as int, table_length(t@) as int),
        r matches Some(n) ==> n == madt_ids(t@, MADT_SIZE as int, table_length(t@) as int).len(),
{
    let tlen = t.len();
    let end = read_u32_le(t, 4) as u64;
    let mut p: u64 = MADT_SIZE as u64;
    let mut count: u64 = 0;
    let ghost all_ok = madt_walk_ok(t@, MADT_SIZE as int, end as int);
    let ghost all = madt_ids(t@, MADT_SIZE as int, end as int);
    while p < end
        invariant
            end == table_length(t@),
            end <= u32::MAX,
            tlen == t@.len(),
            MADT_SIZE <= p,
            p <= end + 256,
            count <= p,
            all_ok == madt_walk_ok(t@, p as int, end as int),
            all_ok == madt_walk_ok(t@, MADT_SIZE as int, end as int),
            all == madt_ids(t@, MADT_SIZE as int, end as int),
            all.len() == count + madt_ids(t@, p as int, end as int).len(),
        decreases end + 256 - p,
    {
        if p + 2 > tlen as u64 {
            assert(!madt_walk_ok(t@, p as int, end as int));
            return None;
        }
        let q = p as usize;
        let entry_type = t[q];
        let length = t[q + 1];
        if length == 0 {
            assert(!madt_walk_ok(t@, p as int, end as int));
            return None;
        }
        if entry_type == 0 && p + 8 > tlen as u64 {
            assert(!madt_walk_ok(t@, p as int, end as int));
            return None;
        }
        if entry_type == 0 && read_u32_le(t, q + 4) & 1 != 0 {
            count = count + 1;
        }
        if p + length as u64 >= end {
            return Some(count);
        }
        p = p + length as u64;
    }
    Some(count)
}

/// Whether `process_table` may take table `t` with the state as it is (see
/// `table_processable`).
pub fn table_is_processable(state: &AcpiState, t: &[u8]) -> (r: bool)
    ensures
        r == table_processable(*state, t@),
{
    if t.len() < SDT_HEADER_SIZE || state.lapic_ids.len() != MAX_CPUS || state.cpu_count as usize > MAX_CPUS {
        return false;
    }
    if is_signature(t, 65, 80, 73, 67) {
        match madt_scan(t) {
            None => false,
            Some(n) => n <= MAX_CPUS as u64 - state.cpu_count as u64,
        }
    } else if is_signature(t, 70, 65, 67, 80) {
        proof {
            assert(seq![65u8, 80u8, 73u8, 67u8] != seq![70u8, 65u8, 67u8, 80u8]) by {
                assert(seq![65u8, 80u8, 73u8, 67u8][0] != seq![70u8, 65u8, 67u8, 80u8][0]);
            }
        }
        t.len() >= FADT_SIZE
    } else {
        true
    }
}

/// Records the enabled processors the MADT `t` lists after the ones known.
fn walk_madt(state: &mut AcpiState, t: &[u8])
    requires
        old(state).lapic_ids@.len() == MAX_CPUS,
        t@.len() >= SDT_HEADER_SIZE,
        madt_walk_ok(t@, MADT_SIZE as int, table_length(t@) as int),
        old(state).cpu_count + madt_ids(t@, MADT_SIZE as int, table_length(t@) as int).len() <= MAX_CPUS,
    ensures
        ({
            let ids = madt_ids(t@, MADT_SIZE as int, table_length(t@) as int);
            let c = old(state).cpu_count as int;
            &&& final(state).cpu_count == c + ids.len()
            &&& final(state).lapic_ids@ == old(state).lapic_ids@.take(c) + ids + old(state).lapic_ids@.skip(
                c + ids.len(),
            )
        }),
        final(state).pm1a_cnt_blk == old(state).pm1a_cnt_blk,
        final(state).pm1b_cnt_blk == old(state).pm1b_cnt_blk,
        final(state).smi_cmd == old(state).smi_cmd,
        final(state).acpi_enable == old(state).acpi_enable,
{
    let tlen = t.len();
    let end = read_u32_le(t, 4) as u64;
    let mut p: u64 = MADT_SIZE as u64;
    let ghost all = madt_ids(t@, MADT_SIZE as int, end as int);
    let ghost c0 = old(state).cpu_count as int;
    while p < end
        invariant
            end == table_length(t@),
            end <= u32::MAX,
            tlen == t@.len(),
            state.lapic_ids@.len() == MAX_CPUS,
            old(state).lapic_ids@.len() == MAX_CPUS,
            madt_walk_ok(t@, p as int, end as int),
            all == madt_ids(t@, MADT_SIZE as int, end as int),
            c0 + all.len() <= MAX_CPUS,
            c0 <= state.cpu_count,
            ({
                let done = (state.cpu_count - c0) as int;
                &&& done + madt_ids(t@, p as int, end as int).len() == all.len()
                &&& all.skip(done) == madt_ids(t@, p as int, end as int)
                &&& state.lapic_ids@ == old(state).lapic_ids@.take(c0) + all.take(done) + old(
                    state,
                ).lapic_ids@.skip(c0 + done)
            }),
            state.pm1a_cnt_blk == old(state).pm1a_cnt_blk,
            state.pm1b_cnt_blk == old(state).pm1b_cnt_blk,
            state.smi_cmd == old(state).smi_cmd,
            state.acpi_enable == old(state).acpi_enable,
        decreases end + 256 - p,
    {
        let q = p as usize;
        let entry_type = t[q];
        let length = t[q + 1];
        let ghost done = (state.cpu_count - c0) as int;
        if entry_type == 0 {
            let apic_id = t[q + 3];
            let flags = read_u32_le(t, q + 4);
            if flags & 1 != 0 {
                let ghost before = state.lapic_ids@;
                proof {
                    assert(all.skip(done) == seq![apic_id] + madt_ids(t@, p + length, end as int));
                    assert(all.skip(done).len() >= 1);
                    assert(done < all.len());
                    assert(all[done] == apic_id) by {
                        assert(all.skip(done)[0] == apic_id);
                    }
                }
                let idx = state.cpu_count as usize;
                state.lapic_ids.set(idx, apic_id);
                state.cpu_count = state.cpu_count + 1;
                proof {
                    let o = old(state).lapic_ids@;
                    assert(all.skip(done + 1) =~= all.skip(done).drop_first());
                    assert(all.take(done + 1) =~= all.take(done).push(apic_id));
                    assert(state.lapic_ids@ =~= o.take(c0) + all.take(done + 1) + o.skip(c0 + done + 1)) by {
                        assert forall|j: int| 0 <= j < MAX_CPUS implies #[trigger] state.lapic_ids@[j] == (o.take(c0)
                            + all.take(done + 1) + o.skip(c0 + done + 1))[j] by {
                            let target = o.take(c0) + all.take(done + 1) + o.skip(c0 + done + 1);
                            let prev = o.take(c0) + all.take(done) + o.skip(c0 + done);
                            assert(before == prev);
                            if j < c0 {
                                assert(state.lapic_ids@[j] == before[j]);
                                assert(prev[j] == o[j]);
                                assert(target[j] == o[j]);
                            } else if j < c0 + done {
                                assert(state.lapic_ids@[j] == before[j]);
                                assert(prev[j] == all[j - c0]);
                                assert(target[j] == all[j - c0]);
                            } else if j == c0 + done {
                                assert(target[j] == all[done]);
                            } else {
                                assert(state.lapic_ids@[j] == before[j]);
                                assert(prev[j] == o[j]);
                                assert(target[j] == o[j]);
                            }
                        }
                    }
                }
            }
        }
        p = p + length as u64;
    }
    proof {
        let done = (state.cpu_count - c0) as int;
        assert(all.take(done) =~= all);
    }
}

/// Takes in one table found through the root table, at `addr`: the MADT
/// adds the enabled processors it lists, the FADT gives the power
/// management ports; each is reported.
pub fn process_table(state: &mut AcpiState, t: &[u8], addr: u64, log: &mut RingBuffer, time: RtcTime)
    requires
        old(log).wf(),
        table_processable(*old(state), t@),
    ensures
        final(log).wf(),
        ({
            let l1 = info_logged(old(log).contents(), time, found_table_msg(t@, addr));
            let ids = madt_ids(t@, MADT_SIZE as int, table_length(t@) as int);
            let c = old(state).cpu_count as int;
            if t@.subrange(0, 4) == madt_signature() {
                &&& final(state).cpu_count == c + ids.len()
                &&& final(state).lapic_ids@ == old(state).lapic_ids@.take(c) + ids + old(state).lapic_ids@.skip(
                    c + ids.len(),
                )
                &&& final(state).pm1a_cnt_blk == old(state).pm1a_cnt_blk
                &&& final(state).pm1b_cnt_blk == old(state).pm1b_cnt_blk
                &&& final(state).smi_cmd == old(state).smi_cmd
                &&& final(state).acpi_enable == old(state).acpi_enable
                &&& final(log).contents() == ok_logged(l1, time, cores_msg(final(state).cpu_count))
            } else if t@.subrange(0, 4) == fadt_signature() {
                &&& final(state).pm1a_cnt_blk == le_u32_at(t@, 64)
                &&& final(state).pm1b_cnt_blk == le_u32_at(t@, 68)
                &&& final(state).smi_cmd == le_u32_at(t@, 48)
                &&& final(state).acpi_enable == t@[52]
                &&& final(state).cpu_count == old(state).cpu_count
                &&& final(state).lapic_ids@ == old(state).lapic_ids@
                &&& final(log).contents() == ok_logged(
                    l1,
                    time,
                    fadt_msg(final(state).pm1a_cnt_blk, final(state).smi_cmd),
                )
            } else {
                &&& final(state).pm1a_cnt_blk == old(state).pm1a_cnt_blk
                &&& final(state).pm1b_cnt_blk == old(state).pm1b_cnt_blk
                &&& final(state).smi_cmd == old(state).smi_cmd
                &&& final(state).acpi_enable == old(state).acpi_enable
                &&& final(state).cpu_count == old(state).cpu_count
                &&& final(state).lapic_ids@ == old(state).lapic_ids@
                &&& final(log).contents() == l1
            }
        }),
{
    let sig_bytes = slice_first4(t);
    let mut msg = empty_text();
    push_text(&mut msg, "ACPI: Found table [");
    match str_from_utf8(sig_bytes.as_slice()) {
        Some(sig) => {
            push_text(&mut msg, sig);
        },
        None => {
            push_text(&mut msg, "????");
        },
    }
    push_text(&mut msg, "] at 0x");
    push_hex(&mut msg, addr);
    assert(msg@ =~= found_table_msg(t@, addr));
    log_info(log, time, &msg);
    if is_signature(t, 65, 80, 73, 67) {
        walk_madt(state, t);
        let mut m = empty_text();
        push_text(&mut m, "ACPI: Found ");
        push_dec(&mut m, state.cpu_count as u64);
        push_text(&mut m, " CPU cores.");
        assert(m@ =~= cores_msg(state.cpu_count));
        log_ok(log, time, &m);
    } else if is_signature(t, 70, 65, 67, 80) {
        state.pm1a_cnt_blk = read_u32_le(t, 64);
        state.pm1b_cnt_blk = read_u32_le(t, 68);
        state.smi_cmd = read_u32_le(t, 48);
        state.acpi_enable = t[52];
        let mut m = empty_text();
        push_text(&mut m, "ACPI: FADT data saved (PM1a: 0x");
        push_hex(&mut m, state.pm1a_cnt_blk as u64);
        push_text(&mut m, ", SMI: 0x");
        push_hex(&mut m, state.smi_cmd as u64);
        push_text(&mut m, ")");
        assert(m@ =~= fadt_msg(state.pm1a_cnt_blk, state.smi_cmd));
        log_ok(log, time, &m);
    }
}

/// The first four bytes (a table's signature).
fn slice_first4(t: &[u8]) -> (v: Vec<u8>)
    requires
        t@.len() >= 4,
    ensures
        v@ == t@.subrange(0, 4),
{
    let mut v: Vec<u8> = Vec::new();
    v.push(t[0]);
    v.push(t[1]);
    v.push(t[2]);
    v.push(t[3]);
    assert(v@ =~= t@.subrange(0, 4));
    v
}

/// The sleep-enable bit of the PM1 control registers.
pub const SLP_EN: u16 = 0x2000;

/// The sleep types tried in turn to switch the machine off.
pub open spec fn sleep_types() -> Seq<u16> {
    seq![7u16, 5u16, 0u16, 0x34u16]
}

/// One attempt to switch the machine off: `value` to the PM1a control
/// port, and to the PM1b port when there is one.
#[derive(Debug, Clone, Copy, PartialEq, Eq, Structural)]
pub struct SleepWrite {
    pub port_a: u16,
    pub port_b: Option<u16>,
    pub value: u16,
}

/// How to switch the machine off: first enable ACPI through the SMI
/// command port when the FADT names one, then try each sleep type; none of
/// this without a PM1a control port.
pub struct ShutdownPlan {
    pub smi_enable: Option<(u16, u8)>,
    pub attempts: Vec<SleepWrite>,
}

/// The value that puts the machine into sleep type `slp_typ`.
pub open spec fn sleep_value(slp_typ: u16) -> u16 {
    ((slp_typ << 10u16) | SLP_EN) as u16
}

/// Plans the shutdown from what the FADT gave.
pub fn shutdown_plan(state: &AcpiState) -> (plan: ShutdownPlan)
    ensures
        plan.smi_enable == (if state.smi_cmd != 0 && state.acpi_enable != 0 {
            Some((state.smi_cmd as u16, state.acpi_enable))
        } else {
            None
        }),
        state.pm1a_cnt_blk == 0 ==> plan.attempts@ == Seq::<SleepWrite>::empty(),
        state.pm1a_cnt_blk != 0 ==> plan.attempts@ == sleep_types().map_values(
            |t: u16|
                SleepWrite {
                    port_a: state.pm1a_cnt_blk as u16,
                    port_b: if state.pm1b_cnt_blk != 0 { Some(state.pm1b_cnt_blk as u16) } else { None },
                    value: sleep_value(t),
                },
        ),
{
    let smi_enable = if state.smi_cmd != 0 && state.acpi_enable != 0 {
        Some((state.smi_cmd as u16, state.acpi_enable))
    } else {
        None
    };
    let mut attempts: Vec<SleepWrite> = Vec::new();
    if state.pm1a_cnt_blk != 0 {
        let port_a = state.pm1a_cnt_blk as u16;
        let port_b = if state.pm1b_cnt_blk != 0 { Some(state.pm1b_cnt_blk as u16) } else { None };
        let types: [u16; 4] = [7, 5, 0, 0x34];
        let mut i: usize = 0;
        while i < 4
            invariant
                0 <= i <= 4,
                types@ == sleep_types(),
                state.pm1a_cnt_blk != 0,
                port_a == state.pm1a_cnt_blk as u16,
                port_b == (if state.pm1b_cnt_blk != 0 { Some(state.pm1b_cnt_blk as u16) } else { None }),
                attempts@ == sleep_types().take(i as int).map_values(
                    |t: u16| SleepWrite { port_a: port_a, port_b: port_b, value: sleep_value(t) },
                ),
            decreases 4 - i,
        {
            let t = types[i];
            let value: u16 = (t << 10u16) | SLP_EN;
            attempts.push(SleepWrite { port_a, port_b, value });
            assert(attempts@ =~= sleep_types().take(i + 1).map_values(
                |t: u16| SleepWrite { port_a: port_a, port_b: port_b, value: sleep_value(t) },
            ));
            i = i + 1;
        }
        assert(sleep_types().take(4) =~= sleep_types());
    } else {
        assert(attempts@ =~= Seq::<SleepWrite>::empty());
    }
    ShutdownPlan { smi_enable, attempts }
}

} // verus!
