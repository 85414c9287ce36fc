//! x86-64 four-level paging: entry encoding, flags, virtual address indices,
//! and the rule for finding or creating the next-level table.
use vstd::prelude::*;
use crate::pmm::{alloc_frame, used_pages, lowest_free, page_of, PAGE_SIZE};

verus! {

/// Offset of the higher-half direct map of physical memory.
pub const HHDM_OFFSET: u64 = 0xffff800000000000;

/// Bits of an entry that hold the physical address.
pub const ADDR_MASK: u64 = 0x000f_ffff_ffff_f000;

pub const PRESENT: u64 = 1;
pub const WRITABLE: u64 = 2;
pub const USER_ACCESSIBLE: u64 = 4;
pub const WRITE_THROUGH: u64 = 8;
pub const NO_CACHE: u64 = 16;
pub const ACCESSED: u64 = 32;
pub const DIRTY: u64 = 64;
pub const HUGE_PAGE: u64 = 128;
pub const GLOBAL: u64 = 256;
pub const NO_EXECUTE: u64 = 0x8000_0000_0000_0000;

/// Every flag bit that has a name.
pub const ALL_FLAGS: u64 = 0x8000_0000_0000_01ff;

/// A set of page-table entry flags; only named flag bits are ever set.
#[derive(Clone, Copy, Debug)]
pub struct PageTableFlags {
    bits: u64,
}

impl PageTableFlags {
    pub closed spec fn value(&self) -> u64 {
        self.bits
    }

    #[verifier::type_invariant]
    spec fn only_named_bits(self) -> bool {
        self.bits & !ALL_FLAGS == 0
    }

    /// The flags whose bits are set in `bits`; unnamed bits are dropped.
    pub fn from_bits_truncate(bits: u64) -> (f: Self)
        ensures
            f.value() == bits & ALL_FLAGS,
    {
        let b = bits & ALL_FLAGS;
        assert(b & !ALL_FLAGS == 0) by (bit_vector)
            requires
                b == bits & ALL_FLAGS,
        ;
        PageTableFlags { bits: b }
    }

    pub fn empty() -> (f: Self)
        ensures
            f.value() == 0,
    {
        assert(0u64 & !ALL_FLAGS == 0) by (bit_vector);
        PageTableFlags { bits: 0 }
    }

    pub fn bits(&self) -> (b: u64)
        ensures
            b == self.value(),
            b & !ALL_FLAGS == 0,
    {
        proof {
            use_type_invariant(self);
        }
        self.bits
    }

    /// Both sets of flags together.
    pub fn union(self, other: Self) -> (f: Self)
        ensures
            f.value() == self.value() | other.value(),
    {
        proof {
            use_type_invariant(&self);
            use_type_invariant(&other);
        }
        let a = self.bits;
        let b = other.bits;
        assert((a | b) & !ALL_FLAGS == 0) by (bit_vector)
            requires
                a & !ALL_FLAGS == 0,
                b & !ALL_FLAGS == 0,
        ;
        PageTableFlags { bits: a | b }
    }

    /// Whether every flag of `other` is set here.
    pub fn contains(&self, other: Self) -> (r: bool)
        ensures
            r == (self.value() & other.value() == other.value()),
    {
        self.bits & other.bits == other.bits
    }
}

/// One 64-bit page-table entry: a physical address and flags.
#[derive(Clone, Copy)]
pub struct PageTableEntry(pub u64);

impl PageTableEntry {
    /// Points the entry at `phys` (its page-aligned part) with `flags`.
    pub fn set_addr(&mut self, phys: u64, flags: PageTableFlags)
        ensures
            final(self).0 == (phys & ADDR_MASK) | flags.value(),
    {
        self.0 = (phys & ADDR_MASK) | flags.bits();
    }

    /// The physical address the entry points at.
    pub fn addr(&self) -> (a: u64)
        ensures
            a == self.0 & ADDR_MASK,
    {
        self.0 & ADDR_MASK
    }

    /// The named flags set in the entry.
    pub fn flags(&self) -> (f: PageTableFlags)
        ensures
            f.value() == self.0 & ALL_FLAGS,
    {
        PageTableFlags::from_bits_truncate(self.0)
    }
}

/// What `set_addr` writes is what `addr` and `flags` read back: the
/// page-aligned part of the address and exactly the flags given.
pub proof fn entry_read_after_write(phys: u64, flags: u64)
    requires
        flags & !ALL_FLAGS == 0,
    ensures
        ((phys & ADDR_MASK) | flags) & ADDR_MASK == phys & ADDR_MASK,
        ((phys & ADDR_MASK) | flags) & ALL_FLAGS == flags,
{
    assert(((phys & ADDR_MASK) | flags) & ADDR_MASK == phys & ADDR_MASK) by (bit_vector)
        requires
            flags & !ALL_FLAGS == 0,
    ;
    assert(((phys & ADDR_MASK) | flags) & ALL_FLAGS == flags) by (bit_vector)
        requires
            flags & !ALL_FLAGS == 0,
    ;
}

/// A page table: 512 entries.
pub struct PageTable {
    pub entries: [PageTableEntry; 512],
}

impl PageTable {
    /// Clears every entry.
    pub fn zero(&mut self)
        ensures
            forall|i: int| 0 <= i < 512 ==> #[trigger] final(self).entries@[i].0 == 0,
    {
        let mut i: usize = 0;
        while i < 512
            invariant
                0 <= i <= 512,
                forall|j: int| 0 <= j < i ==> #[trigger] self.entries@[j].0 == 0,
            decreases 512 - i,
        {
            self.entries[i] = PageTableEntry(0);
            i = i + 1;
        }
    }
}

/// A virtual address.
pub struct VirtAddr(pub u64);

impl VirtAddr {
    /// Index into the level-4 table: bits 39 to 47.
    pub fn p4_index(&self) -> (i: usize)
        ensures
            i == (self.0 / 0x80_0000_0000) % 512,
            i < 512,
    {
        let v = self.0;
        let r = (v >> 39u64) & 0x1ff;
        assert(r == (v / 0x80_0000_0000) % 512 && r < 512) by (bit_vector)
            requires
                r == (v >> 39u64) & 0x1ff,
        ;
        r as usize
    }

    /// Index into the level-3 table: bits 30 to 38.
    pub fn p3_index(&self) -> (i: usize)
        ensures
            i == (self.0 / 0x4000_0000) % 512,
            i < 512,
    {
        let v = self.0;
        let r = (v >> 30u64) & 0x1ff;
        assert(r == (v / 0x4000_0000) % 512 && r < 512) by (bit_vector)
            requires
                r == (v >> 30u64) & 0x1ff,
        ;
        r as usize
    }

    /// Index into the level-2 table: bits 21 to 29.
    pub fn p2_index(&self) -> (i: usize)
        ensures
            i == (self.0 / 0x20_0000) % 512,
            i < 512,
    {
        let v = self.0;
        let r = (v >> 21u64) & 0x1ff;
        assert(r == (v / 0x20_0000) % 512 && r < 512) by (bit_vector)
            requires
                r == (v >> 21u64) & 0x1ff,
        ;
        r as usize
    }

    /// Index into the level-1 table: bits 12 to 20.
    pub fn p1_index(&self) -> (i: usize)
        ensures
            i == (self.0 / 0x1000) % 512,
            i < 512,
    {
        let v = self.0;
        let r = (v >> 12u64) & 0x1ff;
        assert(r == (v / 0x1000) % 512 && r < 512) by (bit_vector)
            requires
                r == (v >> 12u64) & 0x1ff,
        ;
        r as usize
    }
}

/// Whether every bit of `flag` is among the named flags of entry value `e`.
pub open spec fn has_flag(e: u64, flag: u64) -> bool {
    (e & ALL_FLAGS) & flag == flag
}

/// The next-level table an entry leads to: one it already pointed at, or a
/// frame just taken from the allocator, which must be zeroed before use.
#[derive(Clone, Copy, Debug, PartialEq, Eq, Structural)]
pub enum TableRef {
    Existing(u64),
    Fresh(u64),
}

/// The flags of an entry that leads to a table created here.
pub open spec fn new_table_flags() -> u64 {
    PRESENT | WRITABLE | USER_ACCESSIBLE
}

/// Finds the table that `entry` leads to, or creates one. A present entry
/// that is not a huge page is followed; if it lacks user access it gains user
/// access and write permission. Otherwise (absent, or a huge page) a frame is
/// taken from the allocator and the entry is pointed at it as a present,
/// writable, user-accessible table. No result when no frame is free.
pub fn get_or_create_table_static(entry: &mut PageTableEntry, bitmap: &mut [u8]) -> (r: Option<TableRef>)
    requires
        old(bitmap)@.len() * 8 * 4096 <= u64::MAX,
    ensures
        ({
            let e = old(entry).0;
            if has_flag(e, PRESENT) && !has_flag(e, HUGE_PAGE) {
                &&& r == Some(TableRef::Existing(e & ADDR_MASK))
                &&& final(bitmap)@ == old(bitmap)@
                &&& final(entry).0 == if has_flag(e, USER_ACCESSIBLE) {
                    e
                } else {
                    (e & ADDR_MASK) | ((e & ALL_FLAGS) | USER_ACCESSIBLE | WRITABLE)
                }
            } else {
                match r {
                    None => {
                        &&& forall|p: int| 0 <= p < used_pages(old(bitmap)@).len() ==> #[trigger] used_pages(old(bitmap)@)[p]
                        &&& final(bitmap)@ == old(bitmap)@
                        &&& final(entry).0 == e
                    },
                    Some(TableRef::Fresh(a)) => {
                        &&& a % PAGE_SIZE == 0
                        &&& lowest_free(used_pages(old(bitmap)@), page_of(a) as int)
                        &&& used_pages(final(bitmap)@) == used_pages(old(bitmap)@).update(page_of(a) as int, true)
                        &&& final(entry).0 == (a & ADDR_MASK) | new_table_flags()
                    },
                    Some(TableRef::Existing(_)) => false,
                }
            }
        }),
        final(bitmap)@.len() == old(bitmap)@.len(),
{
    let flags = entry.flags();
    let present = PageTableFlags::from_bits_truncate(PRESENT);
    let huge = PageTableFlags::from_bits_truncate(HUGE_PAGE);
    let user = PageTableFlags::from_bits_truncate(USER_ACCESSIBLE);
    let writable = PageTableFlags::from_bits_truncate(WRITABLE);
    assert(PRESENT & ALL_FLAGS == PRESENT) by (bit_vector);
    assert(HUGE_PAGE & ALL_FLAGS == HUGE_PAGE) by (bit_vector);
    assert(USER_ACCESSIBLE & ALL_FLAGS == USER_ACCESSIBLE) by (bit_vector);
    assert(WRITABLE & ALL_FLAGS == WRITABLE) by (bit_vector);
    if flags.contains(present) && !flags.contains(huge) {
        let addr = entry.addr();
        if !flags.contains(user) {
            let new_flags = flags.union(user).union(writable);
            entry.set_addr(addr, new_flags);
            assert(forall|e: u64| #[trigger] ((e & ADDR_MASK) & ADDR_MASK) == e & ADDR_MASK) by (bit_vector);
        }
        Some(TableRef::Existing(addr))
    } else {
        match alloc_frame(bitmap) {
            Some(new_frame) => {
                let table_flags = present.union(writable).union(user);
                assert(PRESENT | WRITABLE | USER_ACCESSIBLE == new_table_flags());
                entry.set_addr(new_frame, table_flags);
                Some(TableRef::Fresh(new_frame))
            },
            None => None,
        }
    }
}

/// One mapping to establish: the page at `virt` onto the frame at `phys`.
#[derive(Clone, Copy, Debug)]
pub struct MapRequest {
    pub virt: u64,
    pub phys: u64,
    pub flags: PageTableFlags,
}

/// Collects the page mappings to establish, in order.
pub struct MemoryMapper {
    pub requests: Vec<MapRequest>,
}

/// Whether `r` maps `virt` onto `phys` with flags `flags`.
pub open spec fn request_is(r: MapRequest, virt: int, phys: int, flags: u64) -> bool {
    r.virt == virt && r.phys == phys && r.flags.value() == flags
}

/// Whether `map_range` can map `size` bytes at `start_virt` onto frames from
/// `start_phys`: the end of the range, rounded up to a page, fits in 64 bits,
/// and so does the physical address past the last frame it maps.
pub open spec fn range_mappable(start_virt: u64, start_phys: u64, size: u64) -> bool {
    &&& start_virt + size + 4095 <= u64::MAX
    &&& (start_phys / 4096) * 4096 + ((start_virt + size + 4095) / 4096 * 4096 - (start_virt / 4096) * 4096)
        <= u64::MAX
}

impl MemoryMapper {
    /// Whether `map_range` accepts this range.
    pub fn range_fits(start_virt: u64, start_phys: u64, size: u64) -> (r: bool)
        ensures
            r == range_mappable(start_virt, start_phys, size),
    {
        let ev = match start_virt.checked_add(size) {
            Some(v) => match v.checked_add(4095) {
                Some(e) => e,
                None => {
                    return false;
                },
            },
            None => {
                return false;
            },
        };
        let end = ev & !0xfffu64;
        let first = start_virt & !0xfffu64;
        let pfirst = start_phys & !0xfffu64;
        assert(end == (ev / 4096) * 4096) by (bit_vector)
            requires
                end == ev & !0xfffu64,
        ;
        assert(first == (start_virt / 4096) * 4096) by (bit_vector)
            requires
                first == start_virt & !0xfffu64,
        ;
        assert(pfirst == (start_phys / 4096) * 4096) by (bit_vector)
            requires
                pfirst == start_phys & !0xfffu64,
        ;
        assert(first <= end) by (nonlinear_arith)
            requires
                first == (start_virt / 4096) * 4096,
                end == (ev / 4096) * 4096,
                start_virt <= ev,
        ;
        pfirst.checked_add(end - first).is_some()
    }

    pub fn new() -> (m: Self)
        ensures
            m.requests@.len() == 0,
    {
        MemoryMapper { requests: Vec::new() }
    }

    /// Maps one page.
    pub fn map_to(&mut self, virt: VirtAddr, phys: u64, flags: PageTableFlags)
        ensures
            final(self).requests@ == old(self).requests@.push(MapRequest { virt: virt.0, phys, flags }),
    {
        self.requests.push(MapRequest { virt: virt.0, phys, flags });
    }

    /// Maps a whole range page by page: from the page holding `start_virt` up
    /// to the end of the page holding the last byte, onto consecutive frames
    /// from the frame holding `start_phys`.
    pub fn map_range(&mut self, start_virt: u64, start_phys: u64, size: u64, flags: PageTableFlags)
        requires
            range_mappable(start_virt, start_phys, size),
        ensures
            ({
                let first = (start_virt / 4096) * 4096;
                let end = ((start_virt + size + 4095) / 4096) * 4096;
                let n = (end - first) / 4096;
                let pfirst = (start_phys / 4096) * 4096;
                &&& final(self).requests@.len() == old(self).requests@.len() + n
                &&& final(self).requests@.subrange(0, old(self).requests@.len() as int) == old(self).requests@
                &&& forall|i: int| 0 <= i < n ==> request_is(
                    #[trigger] final(self).requests@[old(self).requests@.len() + i],
                    first + i * 4096,
                    pfirst + i * 4096,
                    flags.value(),
                )
            }),
    {
        let start = start_virt & !0xfffu64;
        let end = (start_virt + size + 4095) & !0xfffu64;
        let mut current_virt = start;
        let mut current_phys = start_phys & !0xfffu64;
        assert(start == (start_virt / 4096) * 4096) by (bit_vector)
            requires
                start == start_virt & !0xfffu64,
        ;
        let ev = start_virt + size + 4095;
        assert(end == (ev / 4096) * 4096) by (bit_vector)
            requires
                end == ev & !0xfffu64,
        ;
        assert(current_phys == (start_phys / 4096) * 4096) by (bit_vector)
            requires
                current_phys == start_phys & !0xfffu64,
        ;
        let ghost n0 = self.requests@.len();
        let ghost o = self.requests@;
        assert(start <= end) by (nonlinear_arith)
            requires
                start == (start_virt / 4096) * 4096,
                end == (ev / 4096) * 4096,
                start_virt <= ev,
        ;
        assert((end - start) % 4096 == 0) by (nonlinear_arith)
            requires
                start == (start_virt / 4096) * 4096,
                end == (ev / 4096) * 4096,
                start <= end,
        ;
        while current_virt < end
            invariant
                start <= current_virt <= end,
                (current_virt - start) % 4096 == 0,
                (end - start) % 4096 == 0,
                current_phys == (start_phys / 4096) * 4096 + (current_virt - start),
                (start_phys / 4096) * 4096 + (end - start) <= u64::MAX,
                start == (start_virt / 4096) * 4096,
                end == ((start_virt + size + 4095) / 4096) * 4096,
                self.requests@.len() == n0 + (current_virt - start) / 4096,
                self.requests@.subrange(0, n0 as int) == o,
                forall|i: int| 0 <= i < (current_virt - start) / 4096 ==> request_is(
                    #[trigger] self.requests@[n0 + i],
                    start + i * 4096,
                    (start_phys / 4096) * 4096 + i * 4096,
                    flags.value(),
                ),
            decreases end - current_virt,
        {
            self.requests.push(MapRequest { virt: current_virt, phys: current_phys, flags });
            proof {
                let k = (current_virt - start) / 4096;
                assert(k * 4096 == current_virt - start) by (nonlinear_arith)
                    requires
                        k == (current_virt - start) / 4096,
                        (current_virt - start) % 4096 == 0,
                        current_virt >= start,
                ;
                assert((current_virt + 4096 - start) / 4096 == k + 1) by (nonlinear_arith)
                    requires
                        k * 4096 == current_virt - start,
                ;
                assert((current_virt + 4096 - start) % 4096 == 0) by (nonlinear_arith)
                    requires
                        k * 4096 == current_virt - start,
                ;
                assert(current_virt + 4096 <= end) by (nonlinear_arith)
                    requires
                        (end - start) % 4096 == 0,
                        k * 4096 == current_virt - start,
                        current_virt < end,
                        start <= end,
                ;
                assert(self.requests@.subrange(0, n0 as int) =~= o);
            }
            current_virt = current_virt + 4096;
            current_phys = current_phys + 4096;
        }
    }

    /// Maps a physical range at the same virtual addresses.
    pub fn identity_map(&mut self, start_phys: u64, size: u64, flags: PageTableFlags)
        requires
            start_phys + size + 4095 <= u64::MAX,
        ensures
            ({
                let first = (start_phys / 4096) * 4096;
                let end = ((start_phys + size + 4095) / 4096) * 4096;
                let n = (end - first) / 4096;
                &&& final(self).requests@.len() == old(self).requests@.len() + n
                &&& final(self).requests@.subrange(0, old(self).requests@.len() as int) == old(self).requests@
                &&& forall|i: int| 0 <= i < n ==> request_is(
                    #[trigger] final(self).requests@[old(self).requests@.len() + i],
                    first + i * 4096,
                    first + i * 4096,
                    flags.value(),
                )
            }),
    {
        proof {
            let ev = start_phys + size + 4095;
            assert((ev / 4096) * 4096 <= ev) by (nonlinear_arith)
                requires
                    ev >= 0,
            ;
            assert((start_phys / 4096) * 4096 <= (ev / 4096) * 4096) by (nonlinear_arith)
                requires
                    start_phys <= ev,
            ;
        }
        self.map_range(start_phys, start_phys, size, flags);
    }
}

} // verus!
