//! The global descriptor table: flat kernel and user segments and the task
//! state segment's descriptor.
use vstd::prelude::*;

verus! {

/// Entries of the table.
pub const GDT_ENTRIES: usize = 8;

pub const KERNEL_CODE: u64 = 0x00AF9A000000FFFF;

pub const KERNEL_DATA: u64 = 0x00CF92000000FFFF;

pub const USER_CODE: u64 = 0x00AFFA000000FFFF;

pub const USER_DATA: u64 = 0x00CFF2000000FFFF;

/// Access byte of an available 64-bit TSS.
pub const TSS_AVAILABLE: u64 = 0x89;

/// The low half of the TSS descriptor: limit bits 0-15, base bits 0-23,
/// the access byte, limit bits 16-19, base bits 24-31.
pub open spec fn tss_low(addr: u64, limit: u64) -> u64 {
    (limit & 0xFFFF) | ((addr & 0xFFFFFF) << 16u64) | (TSS_AVAILABLE << 40u64) | (((limit >> 16u64) & 0xF) << 48u64)
        | ((addr & 0xFF000000) << 32u64)
}

/// The high half of the TSS descriptor: base bits 32-63.
pub open spec fn tss_high(addr: u64) -> u64 {
    addr >> 32u64
}

/// The table: null, kernel code and data, user code and data, the two
/// halves of the TSS descriptor, and an unused entry.
pub open spec fn gdt_spec(tss_addr: u64, tss_limit: u64) -> Seq<u64> {
    seq![0, KERNEL_CODE, KERNEL_DATA, USER_CODE, USER_DATA, tss_low(tss_addr, tss_limit), tss_high(tss_addr), 0]
}

/// Builds the table for the TSS at `tss_addr` whose last byte is at offset
/// `tss_limit`.
pub fn build_gdt(tss_addr: u64, tss_limit: u64) -> (gdt: [u64; 8])
    ensures
        gdt@ == gdt_spec(tss_addr, tss_limit),
{
    let mut low: u64 = 0;
    low = low | (tss_limit & 0xFFFF);
    low = low | ((tss_addr & 0xFFFFFF) << 16u64);
    low = low | (TSS_AVAILABLE << 40u64);
    low = low | (((tss_limit >> 16u64) & 0xF) << 48u64);
    low = low | ((tss_addr & 0xFF000000) << 32u64);
    assert(low == tss_low(tss_addr, tss_limit)) by (bit_vector)
        requires
            low == ((((0u64 | (tss_limit & 0xFFFF)) | ((tss_addr & 0xFFFFFF) << 16u64)) | (0x89u64 << 40u64)) | (((
                tss_limit >> 16u64) & 0xF) << 48u64)) | ((tss_addr & 0xFF000000) << 32u64),
    ;
    let gdt = [0, KERNEL_CODE, KERNEL_DATA, USER_CODE, USER_DATA, low, tss_addr >> 32u64, 0];
    assert(gdt@ =~= gdt_spec(tss_addr, tss_limit));
    gdt
}

/// The limit of the table for `lgdt`: its size less one.
pub fn gdt_limit() -> (l: u16)
    ensures
        l == 8 * GDT_ENTRIES - 1,
{
    (8 * GDT_ENTRIES - 1) as u16
}

/// The TSS descriptor gives back the TSS's address and the low 20 bits of
/// its limit, as the processor reads them.
pub proof fn tss_descriptor_round_trip(addr: u64, limit: u64)
    ensures
        ((tss_low(addr, limit) >> 16u64) & 0xFFFFFF) | (((tss_low(addr, limit) >> 56u64) & 0xFF) << 24u64) | (tss_high(
            addr,
        ) << 32u64) == addr,
        (tss_low(addr, limit) & 0xFFFF) | (((tss_low(addr, limit) >> 48u64) & 0xF) << 16u64) == limit & 0xFFFFF,
        (tss_low(addr, limit) >> 40u64) & 0xFF == TSS_AVAILABLE,
{
    assert(((tss_low(addr, limit) >> 16u64) & 0xFFFFFF) | (((tss_low(addr, limit) >> 56u64) & 0xFF) << 24u64) | (
    tss_high(addr) << 32u64) == addr) by (bit_vector);
    assert((tss_low(addr, limit) & 0xFFFF) | (((tss_low(addr, limit) >> 48u64) & 0xF) << 16u64) == limit & 0xFFFFF)
        by (bit_vector);
    assert((tss_low(addr, limit) >> 40u64) & 0xFF == TSS_AVAILABLE) by (bit_vector);
}

} // verus!
