//! Local and I/O APIC register programming: which value goes to which
//! register. The memory-mapped writes themselves are made by the caller.
use vstd::prelude::*;
use crate::cpuinfo::CpuidResult;

verus! {

/// Physical base address of the local APIC.
pub const LAPIC_DEFAULT_BASE: usize = 0xFEE00000;

/// Spurious-interrupt vector register.
pub const LAPIC_SPURIOUS: u32 = 0xF0;
/// End-of-interrupt register.
pub const LAPIC_EOI: u32 = 0xB0;
/// Interrupt command register, low and high halves.
pub const LAPIC_ICR_LOW: u32 = 0x300;
pub const LAPIC_ICR_HIGH: u32 = 0x310;

/// Whether the processor has a local APIC: bit 9 of EDX of CPUID leaf 1.
pub fn has_apic(leaf1: CpuidResult) -> (r: bool)
    ensures
        r == (leaf1.edx & (1u32 << 9u32) != 0),
{
    leaf1.edx & (1u32 << 9u32) != 0
}

pub fn get_lapic_base() -> (b: usize)
    ensures
        b == LAPIC_DEFAULT_BASE,
{
    LAPIC_DEFAULT_BASE
}

pub struct LocalApic {
    pub base_addr: usize,
}

impl LocalApic {
    pub fn new(base_addr: usize) -> (l: Self)
        ensures
            l.base_addr == base_addr,
    {
        LocalApic { base_addr }
    }

    /// Address of register `reg`.
    pub fn register_address(&self, reg: u32) -> (a: usize)
        requires
            self.base_addr + reg <= usize::MAX,
        ensures
            a == self.base_addr + reg,
    {
        self.base_addr + reg as usize
    }

    /// The spurious-vector register value that enables the APIC: the current
    /// value with the enable bit and vector 0xFF set.
    pub fn init(&self, spurious: u32) -> (w: (u32, u32))
        ensures
            w == (LAPIC_SPURIOUS, spurious | 0x1FF),
    {
        let v = spurious | 0x100 | 0xFF;
        assert(v == spurious | 0x1FF) by (bit_vector)
            requires
                v == spurious | 0x100 | 0xFF,
        ;
        (LAPIC_SPURIOUS, v)
    }

    /// Acknowledges the current interrupt: write 0 to the EOI register.
    pub fn eoi(&self) -> (w: (u32, u32))
        ensures
            w == (LAPIC_EOI, 0u32),
    {
        (LAPIC_EOI, 0)
    }

    /// Sends an INIT inter-processor interrupt to `apic_id`: destination then
    /// command.
    pub fn send_init(&self, apic_id: u8) -> (w: [(u32, u32); 2])
        ensures
            w@ == seq![(LAPIC_ICR_HIGH, (apic_id as u32 * 0x100_0000) as u32), (LAPIC_ICR_LOW, 0x4500u32)],
    {
        let dest = (apic_id as u32) << 24u32;
        let id = apic_id as u32;
        assert(dest == id * 0x100_0000) by (bit_vector)
            requires
                dest == id << 24u32,
                id < 256,
        ;
        let w = [(LAPIC_ICR_HIGH, dest), (LAPIC_ICR_LOW, 0x4500u32)];
        assert(w@ =~= seq![(LAPIC_ICR_HIGH, (apic_id as u32 * 0x100_0000) as u32), (LAPIC_ICR_LOW, 0x4500u32)]);
        w
    }

    /// Sends a start-up inter-processor interrupt with `vector` to `apic_id`.
    pub fn send_sipi(&self, apic_id: u8, vector: u8) -> (w: [(u32, u32); 2])
        ensures
            w@ == seq![(LAPIC_ICR_HIGH, (apic_id as u32 * 0x100_0000) as u32), (LAPIC_ICR_LOW, (0x4600 + vector) as u32)],
    {
        let dest = (apic_id as u32) << 24u32;
        let id = apic_id as u32;
        assert(dest == id * 0x100_0000) by (bit_vector)
            requires
                dest == id << 24u32,
                id < 256,
        ;
        let v = vector as u32;
        let cmd = 0x4600u32 | v;
        assert(cmd == 0x4600 + v) by (bit_vector)
            requires
                cmd == 0x4600u32 | v,
                v < 256,
        ;
        let w = [(LAPIC_ICR_HIGH, dest), (LAPIC_ICR_LOW, cmd)];
        assert(w@ =~= seq![(LAPIC_ICR_HIGH, (apic_id as u32 * 0x100_0000) as u32), (LAPIC_ICR_LOW, (0x4600 + vector) as u32)]);
        w
    }
}

pub struct IoApic {
    pub base_addr: usize,
}

impl IoApic {
    pub fn new(base_addr: usize) -> (i: Self)
        ensures
            i.base_addr == base_addr,
    {
        IoApic { base_addr }
    }

    /// Routes `irq` to `vector` on CPU 0: the redirection entry's high half
    /// (destination 0) is written, then its low half (the vector).
    pub fn set_irq(&self, irq: u8, vector: u8) -> (w: [(u8, u32); 2])
        requires
            0x11 + irq * 2 <= 255,
        ensures
            w@ == seq![((0x11 + irq * 2) as u8, 0u32), ((0x10 + irq * 2) as u8, vector as u32)],
    {
        let low_index = 0x10 + irq * 2;
        let high_index = 0x11 + irq * 2;
        let w = [(high_index, 0u32), (low_index, vector as u32)];
        assert(w@ =~= seq![((0x11 + irq * 2) as u8, 0u32), ((0x10 + irq * 2) as u8, vector as u32)]);
        w
    }
}

} // verus!
