//! Interrupt descriptor table entries and the CPU state saved on exceptions.
use vstd::prelude::*;

verus! {

/// Kernel code segment selector.
pub const KERNEL_CODE_SELECTOR: u16 = 8;

/// Present, ring 0, 64-bit interrupt gate.
pub const INTERRUPT_GATE: u8 = 0x8E;

/// One 16-byte gate descriptor.
#[derive(Clone, Copy)]
pub struct IdtEntry {
    pub offset_low: u16,
    pub selector: u16,
    pub ist: u8,
    pub flags: u8,
    pub offset_mid: u16,
    pub offset_high: u32,
    pub reserved: u32,
}

impl IdtEntry {
    /// An absent gate: every field zero.
    pub fn empty() -> (e: Self)
        ensures
            e.offset_low == 0 && e.selector == 0 && e.ist == 0 && e.flags == 0 && e.offset_mid == 0
                && e.offset_high == 0 && e.reserved == 0,
    {
        IdtEntry { offset_low: 0, selector: 0, ist: 0, flags: 0, offset_mid: 0, offset_high: 0, reserved: 0 }
    }

    /// Installs `handler`: a present ring-0 interrupt gate in the kernel code
    /// segment, with no interrupt stack.
    pub fn set_handler(&mut self, handler: u64)
        ensures
            final(self).offset_low == handler % 0x1_0000,
            final(self).offset_mid == (handler / 0x1_0000) % 0x1_0000,
            final(self).offset_high == handler / 0x1_0000_0000,
            final(self).selector == KERNEL_CODE_SELECTOR,
            final(self).flags == INTERRUPT_GATE,
            final(self).ist == 0,
            final(self).reserved == old(self).reserved,
    {
        let low = handler as u16;
        let mid = (handler >> 16u64) as u16;
        let high = (handler >> 32u64) as u32;
        assert(low == handler % 0x1_0000 && mid == (handler / 0x1_0000) % 0x1_0000 && high == handler
            / 0x1_0000_0000) by (bit_vector)
            requires
                low == handler as u16,
                mid == (handler >> 16u64) as u16,
                high == (handler >> 32u64) as u32,
        ;
        self.offset_low = low;
        self.offset_mid = mid;
        self.offset_high = high;
        self.selector = KERNEL_CODE_SELECTOR;
        self.flags = INTERRUPT_GATE;
        self.ist = 0;
    }

    /// Selects interrupt stack `ist_index` (only its low three bits count).
    pub fn set_ist(&mut self, ist_index: u8)
        ensures
            final(self).ist == ist_index % 8,
            final(self).offset_low == old(self).offset_low,
            final(self).offset_mid == old(self).offset_mid,
            final(self).offset_high == old(self).offset_high,
            final(self).selector == old(self).selector,
            final(self).flags == old(self).flags,
            final(self).reserved == old(self).reserved,
    {
        let v = ist_index & 0b111;
        assert(v == ist_index % 8) by (bit_vector)
            requires
                v == ist_index & 0b111,
        ;
        self.ist = v;
    }

    /// The handler address held in the three offset fields.
    pub open spec fn handler(&self) -> int {
        self.offset_low + self.offset_mid * 0x1_0000 + self.offset_high * 0x1_0000_0000
    }
}

/// The handler address written by `set_handler` is the one the entry holds.
pub proof fn handler_round_trip(e: IdtEntry, handler: u64)
    requires
        e.offset_low == handler % 0x1_0000,
        e.offset_mid == (handler / 0x1_0000) % 0x1_0000,
        e.offset_high == handler / 0x1_0000_0000,
    ensures
        e.handler() == handler,
{
    let h = handler as int;
    assert(h == h % 0x1_0000 + ((h / 0x1_0000) % 0x1_0000) * 0x1_0000 + (h / 0x1_0000_0000) * 0x1_0000_0000)
        by (nonlinear_arith)
        requires
            h >= 0,
    {
        vstd::arithmetic::div_mod::lemma_fundamental_div_mod(h, 0x1_0000);
        vstd::arithmetic::div_mod::lemma_fundamental_div_mod(h / 0x1_0000, 0x1_0000);
        vstd::arithmetic::div_mod::lemma_div_denominator(h, 0x1_0000, 0x1_0000);
    }
}

/// The CPU state pushed on an interrupt.
pub struct InterruptStackFrame {
    pub instruction_pointer: u64,
    pub code_segment: u64,
    pub cpu_flags: u64,
    pub stack_pointer: u64,
    pub stack_segment: u64,
}

/// General-purpose registers captured for a fault report.
pub struct CpuState {
    pub rax: u64,
    pub rbx: u64,
    pub rcx: u64,
    pub rdx: u64,
    pub rsi: u64,
    pub rdi: u64,
    pub rbp: u64,
}

} // verus!
