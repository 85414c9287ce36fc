//! The boot memory map and the totals derived from it.
use vstd::prelude::*;

verus! {

/// Kinds of memory-map regions reported by the boot loader.
#[derive(Debug, Clone, Copy, PartialEq, Eq, Structural)]
pub enum MemoryRegionKind {
    Usable,
    Reserved,
    AcpiReclaimable,
    AcpiNvs,
    BadMemory,
    BootloaderReclaimable,
    ExecutableAndModules,
    Framebuffer,
    Other,
}

#[derive(Debug, Clone, Copy)]
pub struct MemoryMapEntry {
    pub base: u64,
    pub length: u64,
    pub entry_type: MemoryRegionKind,
}

#[derive(Debug, Copy, Clone)]
pub struct MemoryStats {
    pub usable: u64,
    pub reserved: u64,
    pub kernel: u64,
    pub boot_reclaim: u64,
    pub reserved_count: u64,
}

/// Total length of the regions of kind `kind`.
pub open spec fn total_of(entries: Seq<MemoryMapEntry>, kind: MemoryRegionKind) -> nat
    decreases entries.len(),
{
    if entries.len() == 0 {
        0
    } else {
        total_of(entries.drop_last(), kind) + if entries.last().entry_type == kind {
            entries.last().length as nat
        } else {
            0
        }
    }
}

/// Number of regions of kind `kind`.
pub open spec fn count_of(entries: Seq<MemoryMapEntry>, kind: MemoryRegionKind) -> nat
    decreases entries.len(),
{
    if entries.len() == 0 {
        0
    } else {
        count_of(entries.drop_last(), kind) + if entries.last().entry_type == kind { 1nat } else { 0nat }
    }
}

proof fn lemma_total_prefix_mono(entries: Seq<MemoryMapEntry>, kind: MemoryRegionKind, i: int)
    requires
        0 <= i <= entries.len(),
    ensures
        total_of(entries.subrange(0, i), kind) <= total_of(entries, kind),
        count_of(entries.subrange(0, i), kind) <= count_of(entries, kind),
    decreases entries.len() - i,
{
    if i < entries.len() {
        lemma_total_prefix_mono(entries, kind, i + 1);
        assert(entries.subrange(0, i + 1).drop_last() =~= entries.subrange(0, i));
    } else {
        assert(entries.subrange(0, i) =~= entries);
    }
}

/// Sums the memory map per kind: usable, reserved (and how many reserved
/// regions), kernel and modules, and boot-loader reclaimable memory. No
/// totals without a memory map.
pub fn get_memory_stats(memmap: Option<&[MemoryMapEntry]>) -> (r: Option<MemoryStats>)
    requires
        memmap matches Some(e) ==> {
            &&& total_of(e@, MemoryRegionKind::Usable) <= u64::MAX
            &&& total_of(e@, MemoryRegionKind::Reserved) <= u64::MAX
            &&& total_of(e@, MemoryRegionKind::ExecutableAndModules) <= u64::MAX
            &&& total_of(e@, MemoryRegionKind::BootloaderReclaimable) <= u64::MAX
        },
    ensures
        memmap is None ==> r is None,
        memmap matches Some(e) ==> (r matches Some(s) && {
            &&& s.usable == total_of(e@, MemoryRegionKind::Usable)
            &&& s.reserved == total_of(e@, MemoryRegionKind::Reserved)
            &&& s.kernel == total_of(e@, MemoryRegionKind::ExecutableAndModules)
            &&& s.boot_reclaim == total_of(e@, MemoryRegionKind::BootloaderReclaimable)
            &&& s.reserved_count == count_of(e@, MemoryRegionKind::Reserved)
        }),
{
    match memmap {
        None => None,
        Some(entries) => {
            let mut usable: u64 = 0;
            let mut reserved: u64 = 0;
            let mut kernel: u64 = 0;
            let mut boot_reclaim: u64 = 0;
            let mut reserved_count: u64 = 0;
            let mut i: usize = 0;
            while i < entries.len()
                invariant
                    0 <= i <= entries@.len(),
                    total_of(entries@, MemoryRegionKind::Usable) <= u64::MAX,
                    total_of(entries@, MemoryRegionKind::Reserved) <= u64::MAX,
                    total_of(entries@, MemoryRegionKind::ExecutableAndModules) <= u64::MAX,
                    total_of(entries@, MemoryRegionKind::BootloaderReclaimable) <= u64::MAX,
                    usable == total_of(entries@.subrange(0, i as int), MemoryRegionKind::Usable),
                    reserved == total_of(entries@.subrange(0, i as int), MemoryRegionKind::Reserved),
                    kernel == total_of(entries@.subrange(0, i as int), MemoryRegionKind::ExecutableAndModules),
                    boot_reclaim == total_of(entries@.subrange(0, i as int), MemoryRegionKind::BootloaderReclaimable),
                    reserved_count == count_of(entries@.subrange(0, i as int), MemoryRegionKind::Reserved),
                    reserved_count <= i,
                decreases entries@.len() - i,
            {
                let e = entries[i];
                proof {
                    assert(entries@.subrange(0, i + 1).drop_last() =~= entries@.subrange(0, i as int));
                    lemma_total_prefix_mono(entries@, MemoryRegionKind::Usable, i + 1);
                    lemma_total_prefix_mono(entries@, MemoryRegionKind::Reserved, i + 1);
                    lemma_total_prefix_mono(entries@, MemoryRegionKind::ExecutableAndModules, i + 1);
                    lemma_total_prefix_mono(entries@, MemoryRegionKind::BootloaderReclaimable, i + 1);
                }
                match e.entry_type {
                    MemoryRegionKind::Usable => {
                        usable = usable + e.length;
                    },
                    MemoryRegionKind::Reserved => {
                        reserved = reserved + e.length;
                        reserved_count = reserved_count + 1;
                    },
                    MemoryRegionKind::ExecutableAndModules => {
                        kernel = kernel + e.length;
                    },
                    MemoryRegionKind::BootloaderReclaimable => {
                        boot_reclaim = boot_reclaim + e.length;
                    },
                    _ => {},
                }
                i = i + 1;
            }
            assert(entries@.subrange(0, entries@.len() as int) =~= entries@);
            Some(MemoryStats { usable, reserved, kernel, boot_reclaim, reserved_count })
        },
    }
}

} // verus!
