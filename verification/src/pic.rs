//! The two chained 8259 interrupt controllers: which port writes set them
//! up, mask and unmask lines, and end an interrupt.
use vstd::prelude::*;

verus! {

/// The end-of-interrupt command.
pub const PIC_EOI: u8 = 0x20;

pub const MASTER_COMMAND: u16 = 0x20;

pub const MASTER_DATA: u16 = 0x21;

pub const SLAVE_COMMAND: u16 = 0xA0;

pub const SLAVE_DATA: u16 = 0xA1;

/// One byte written to an I/O port.
#[derive(Debug, Clone, Copy, PartialEq, Eq, Structural)]
pub struct PortWrite {
    pub port: u16,
    pub value: u8,
}

/// The two controllers and the vectors their lines are mapped to.
#[derive(Debug, Clone, Copy, PartialEq, Eq, Structural)]
pub struct ChainedPics {
    pub offset_master: u8,
    pub offset_slave: u8,
}

pub open spec fn pw(port: u16, value: u8) -> PortWrite {
    PortWrite { port: port, value: value }
}

/// The data port of the controller that owns line `irq`, and the line's bit
/// in that controller's mask.
pub open spec fn line_of(irq: u8) -> (u16, u8) {
    if irq < 8 {
        (MASTER_DATA, irq)
    } else {
        (SLAVE_DATA, (irq - 8) as u8)
    }
}

impl ChainedPics {
    pub fn new(offset_master: u8, offset_slave: u8) -> (p: Self)
        ensures
            p.offset_master == offset_master,
            p.offset_slave == offset_slave,
    {
        ChainedPics { offset_master, offset_slave }
    }

    /// The set-up sequence: start both controllers, give them their vector
    /// offsets, chain the slave to line 2, select 8086 mode, and mask every
    /// line.
    pub fn initialize(&self) -> (w: Vec<PortWrite>)
        ensures
            w@ == seq![
                pw(MASTER_COMMAND, 0x11),
                pw(SLAVE_COMMAND, 0x11),
                pw(MASTER_DATA, self.offset_master),
                pw(SLAVE_DATA, self.offset_slave),
                pw(MASTER_DATA, 4),
                pw(SLAVE_DATA, 2),
                pw(MASTER_DATA, 0x01),
                pw(SLAVE_DATA, 0x01),
                pw(MASTER_DATA, 0xFF),
                pw(SLAVE_DATA, 0xFF),
            ],
    {
        let w = vec![
            PortWrite { port: MASTER_COMMAND, value: 0x11 },
            PortWrite { port: SLAVE_COMMAND, value: 0x11 },
            PortWrite { port: MASTER_DATA, value: self.offset_master },
            PortWrite { port: SLAVE_DATA, value: self.offset_slave },
            PortWrite { port: MASTER_DATA, value: 4 },
            PortWrite { port: SLAVE_DATA, value: 2 },
            PortWrite { port: MASTER_DATA, value: 0x01 },
            PortWrite { port: SLAVE_DATA, value: 0x01 },
            PortWrite { port: MASTER_DATA, value: 0xFF },
            PortWrite { port: SLAVE_DATA, value: 0xFF },
        ];
        assert(w@ =~= seq![
            pw(MASTER_COMMAND, 0x11),
            pw(SLAVE_COMMAND, 0x11),
            pw(MASTER_DATA, self.offset_master),
            pw(SLAVE_DATA, self.offset_slave),
            pw(MASTER_DATA, 4),
            pw(SLAVE_DATA, 2),
            pw(MASTER_DATA, 0x01),
            pw(SLAVE_DATA, 0x01),
            pw(MASTER_DATA, 0xFF),
            pw(SLAVE_DATA, 0xFF),
        ]);
        w
    }

    /// The data port whose mask holds line `irq` (read it and hand the mask
    /// to `enable_irq` or `disable_irq`).
    pub fn mask_port(&self, irq: u8) -> (port: u16)
        ensures
            port == line_of(irq).0,
    {
        if irq < 8 {
            MASTER_DATA
        } else {
            SLAVE_DATA
        }
    }

    /// Unmasks line `irq`, given the current mask of its controller.
    pub fn enable_irq(&self, irq: u8, mask: u8) -> (w: PortWrite)
        requires
            irq < 16,
        ensures
            w == pw(line_of(irq).0, mask & !(1u8 << line_of(irq).1)),
    {
        let (port, bit) = if irq < 8 { (MASTER_DATA, irq) } else { (SLAVE_DATA, irq - 8) };
        PortWrite { port, value: mask & !(1u8 << bit) }
    }

    /// Masks line `irq`, given the current mask of its controller.
    pub fn disable_irq(&self, irq: u8, mask: u8) -> (w: PortWrite)
        requires
            irq < 16,
        ensures
            w == pw(line_of(irq).0, mask | (1u8 << line_of(irq).1)),
    {
        let (port, bit) = if irq < 8 { (MASTER_DATA, irq) } else { (SLAVE_DATA, irq - 8) };
        PortWrite { port, value: mask | (1u8 << bit) }
    }

    /// Ends interrupt `int_id`: the slave too when the interrupt came
    /// through it, then the master.
    pub fn notify_end_of_interrupt(&self, int_id: u8) -> (w: Vec<PortWrite>)
        ensures
            int_id >= self.offset_slave ==> w@ == seq![pw(SLAVE_COMMAND, PIC_EOI), pw(MASTER_COMMAND, PIC_EOI)],
            int_id < self.offset_slave ==> w@ == seq![pw(MASTER_COMMAND, PIC_EOI)],
    {
        let mut w: Vec<PortWrite> = Vec::new();
        if int_id >= self.offset_slave {
            w.push(PortWrite { port: SLAVE_COMMAND, value: PIC_EOI });
        }
        w.push(PortWrite { port: MASTER_COMMAND, value: PIC_EOI });
        proof {
            if int_id >= self.offset_slave {
                assert(w@ =~= seq![pw(SLAVE_COMMAND, PIC_EOI), pw(MASTER_COMMAND, PIC_EOI)]);
            } else {
                assert(w@ =~= seq![pw(MASTER_COMMAND, PIC_EOI)]);
            }
        }
        w
    }
}

/// Masking a line and unmasking it again gives back the mask it had, when
/// the line was unmasked to begin with.
pub proof fn enable_undoes_disable(mask: u8, bit: u8)
    requires
        bit < 8,
        mask & (1u8 << bit) == 0,
    ensures
        (mask | (1u8 << bit)) & !(1u8 << bit) == mask,
{
    assert((mask | (1u8 << bit)) & !(1u8 << bit) == mask) by (bit_vector)
        requires
            bit < 8,
            mask & (1u8 << bit) == 0,
    ;
}

} // verus!
