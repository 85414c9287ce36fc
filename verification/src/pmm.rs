//! Physical frame allocator: one bit per 4 KiB page, set when the page is in
//! use. The bitmap itself lives in a usable memory region found at boot.
use vstd::prelude::*;
use crate::meminfo::{MemoryMapEntry, MemoryRegionKind};

verus! {

/// Size of a physical page frame.
pub const PAGE_SIZE: u64 = 4096;

/// Whether bit `bit` of `byte` is set.
pub open spec fn bit_is_set(byte: u8, bit: nat) -> bool {
    byte & (1u8 << (bit as u8)) != 0
}

/// Page usage as recorded in a bitmap: page `p` is in use when bit `p % 8`
/// of byte `p / 8` is set.
pub open spec fn used_pages(bitmap: Seq<u8>) -> Seq<bool> {
    Seq::new(bitmap.len() * 8, |p: int| bit_is_set(bitmap[p / 8], (p % 8) as nat))
}

/// The page that holds `addr`.
pub open spec fn page_of(addr: u64) -> nat {
    (addr / PAGE_SIZE) as nat
}

proof fn lemma_bits(byte: u8, b: u8, c: u8)
    requires
        b < 8,
        c < 8,
    ensures
        ((byte | (1u8 << b)) & (1u8 << c) != 0) == (c == b || byte & (1u8 << c) != 0),
        ((byte & !(1u8 << b)) & (1u8 << c) != 0) == (c != b && byte & (1u8 << c) != 0),
{
    assert(((byte | (1u8 << b)) & (1u8 << c) != 0) == (c == b || byte & (1u8 << c) != 0)) by (bit_vector)
        requires
            b < 8,
            c < 8,
    ;
    assert(((byte & !(1u8 << b)) & (1u8 << c) != 0) == (c != b && byte & (1u8 << c) != 0)) by (bit_vector)
        requires
            b < 8,
            c < 8,
    ;
}

proof fn lemma_full_byte_bit(c: u8)
    requires
        c < 8,
    ensures
        (0xFFu8 & (1u8 << c)) != 0,
{
    assert((0xFFu8 & (1u8 << c)) != 0) by (bit_vector)
        requires
            c < 8,
    ;
}

proof fn lemma_all_bits_full(byte: u8)
    requires
        (byte & (1u8 << 0u8)) != 0,
        (byte & (1u8 << 1u8)) != 0,
        (byte & (1u8 << 2u8)) != 0,
        (byte & (1u8 << 3u8)) != 0,
        (byte & (1u8 << 4u8)) != 0,
        (byte & (1u8 << 5u8)) != 0,
        (byte & (1u8 << 6u8)) != 0,
        (byte & (1u8 << 7u8)) != 0,
    ensures
        byte == 0xFF,
{
    assert(byte == 0xFF) by (bit_vector)
        requires
            (byte & (1u8 << 0u8)) != 0,
            (byte & (1u8 << 1u8)) != 0,
            (byte & (1u8 << 2u8)) != 0,
            (byte & (1u8 << 3u8)) != 0,
            (byte & (1u8 << 4u8)) != 0,
            (byte & (1u8 << 5u8)) != 0,
            (byte & (1u8 << 6u8)) != 0,
            (byte & (1u8 << 7u8)) != 0,
    ;
}

proof fn lemma_page_in_bitmap(page: int, len: int)
    requires
        page >= 0,
        len >= 0,
    ensures
        (page / 8 < len) == (page < len * 8),
{
    assert((page / 8 < len) == (page < len * 8)) by (nonlinear_arith)
        requires
            page >= 0,
            len >= 0,
    ;
}

/// Sets or clears the bit of page `page` in the bitmap.
fn set_page_bit(bitmap: &mut [u8], page: u64, used: bool)
    requires
        page / 8 < old(bitmap)@.len(),
    ensures
        final(bitmap)@.len() == old(bitmap)@.len(),
        used_pages(final(bitmap)@) == used_pages(old(bitmap)@).update(page as int, used),
{
    let byte_idx = (page / 8) as usize;
    let bit_idx = (page % 8) as u8;
    let old_byte = bitmap[byte_idx];
    let new_byte = if used { old_byte | (1u8 << bit_idx) } else { old_byte & !(1u8 << bit_idx) };
    bitmap[byte_idx] = new_byte;
    proof {
        let o = used_pages(old(bitmap)@);
        let n = used_pages(bitmap@);
        assert forall|p: int| 0 <= p < n.len() implies #[trigger] n[p] == o.update(page as int, used)[p] by {
            if p / 8 == byte_idx {
                lemma_bits(old_byte, bit_idx, (p % 8) as u8);
                assert(p == page <==> p % 8 == page % 8);
            }
        }
        assert(n =~= o.update(page as int, used));
    }
}

/// Marks the page holding `addr` as in use. A page past the end of the
/// bitmap is left alone.
pub fn reserve_page(bitmap: &mut [u8], addr: u64)
    ensures
        final(bitmap)@.len() == old(bitmap)@.len(),
        page_of(addr) < used_pages(old(bitmap)@).len() ==> used_pages(final(bitmap)@)
            == used_pages(old(bitmap)@).update(page_of(addr) as int, true),
        page_of(addr) >= used_pages(old(bitmap)@).len() ==> final(bitmap)@ == old(bitmap)@,
{
    let page = addr / PAGE_SIZE;
    proof {
        lemma_page_in_bitmap(page as int, bitmap@.len() as int);
    }
    if page / 8 < bitmap.len() as u64 {
        set_page_bit(bitmap, page, true);
    }
}

/// Marks the page holding `addr` as free. A page past the end of the bitmap
/// is left alone.
pub fn unreserve_page(bitmap: &mut [u8], addr: u64)
    ensures
        final(bitmap)@.len() == old(bitmap)@.len(),
        page_of(addr) < used_pages(old(bitmap)@).len() ==> used_pages(final(bitmap)@)
            == used_pages(old(bitmap)@).update(page_of(addr) as int, false),
        page_of(addr) >= used_pages(old(bitmap)@).len() ==> final(bitmap)@ == old(bitmap)@,
{
    let page = addr / PAGE_SIZE;
    proof {
        lemma_page_in_bitmap(page as int, bitmap@.len() as int);
    }
    if page / 8 < bitmap.len() as u64 {
        set_page_bit(bitmap, page, false);
    }
}

/// The lowest free page of a usage map, if any.
pub open spec fn lowest_free(used: Seq<bool>, p: int) -> bool {
    0 <= p < used.len() && !used[p] && forall|q: int| 0 <= q < p ==> #[trigger] used[q]
}

/// Takes the lowest free page, marks it in use and returns its address; no
/// address when every page is in use.
pub fn alloc_frame(bitmap: &mut [u8]) -> (r: Option<u64>)
    requires
        old(bitmap)@.len() * 8 * 4096 <= u64::MAX,
    ensures
        final(bitmap)@.len() == old(bitmap)@.len(),
        r is None <==> forall|p: int| 0 <= p < used_pages(old(bitmap)@).len() ==> #[trigger] used_pages(old(bitmap)@)[p],
        r is None ==> final(bitmap)@ == old(bitmap)@,
        r matches Some(a) ==> a % PAGE_SIZE == 0 && lowest_free(used_pages(old(bitmap)@), page_of(a) as int)
            && used_pages(final(bitmap)@) == used_pages(old(bitmap)@).update(page_of(a) as int, true),
{
    let ghost u0 = used_pages(bitmap@);
    let mut byte_idx: usize = 0;
    while byte_idx < bitmap.len()
        invariant
            0 <= byte_idx <= bitmap@.len(),
            bitmap@ == old(bitmap)@,
            u0 == used_pages(bitmap@),
            bitmap@.len() * 8 * 4096 <= u64::MAX,
            forall|q: int| 0 <= q < byte_idx * 8 ==> #[trigger] u0[q],
        decreases bitmap@.len() - byte_idx,
    {
        let byte = bitmap[byte_idx];
        if byte != 0xFF {
            let mut bit_idx: u8 = 0;
            while bit_idx < 8
                invariant
                    0 <= bit_idx <= 8,
                    byte == bitmap@[byte_idx as int],
                    byte_idx < bitmap@.len(),
                    bitmap@ == old(bitmap)@,
                    u0 == used_pages(bitmap@),
                    bitmap@.len() * 8 * 4096 <= u64::MAX,
                    byte != 0xFF,
                    forall|q: int| 0 <= q < byte_idx * 8 ==> #[trigger] u0[q],
                    forall|c: u8| c < bit_idx ==> #[trigger] (byte & (1u8 << c)) != 0,
                decreases 8 - bit_idx,
            {
                if byte & (1u8 << bit_idx) == 0 {
                    let page_idx: u64 = byte_idx as u64 * 8 + bit_idx as u64;
                    let addr = page_idx * 4096;
                    proof {
                        assert(page_of(addr) == page_idx);
                        assert(!u0[page_idx as int]);
                        assert forall|q: int| 0 <= q < page_idx implies #[trigger] u0[q] by {
                            if q >= byte_idx * 8 {
                                assert(q / 8 == byte_idx);
                                assert(byte & (1u8 << ((q % 8) as u8)) != 0);
                            }
                        }
                    }
                    set_page_bit(bitmap, page_idx, true);
                    return Some(addr);
                }
                bit_idx = bit_idx + 1;
            }
            proof {
                assert((byte & (1u8 << 0u8)) != 0);
                assert((byte & (1u8 << 1u8)) != 0);
                assert((byte & (1u8 << 2u8)) != 0);
                assert((byte & (1u8 << 3u8)) != 0);
                assert((byte & (1u8 << 4u8)) != 0);
                assert((byte & (1u8 << 5u8)) != 0);
                assert((byte & (1u8 << 6u8)) != 0);
                assert((byte & (1u8 << 7u8)) != 0);
                lemma_all_bits_full(byte);
            }
        }
        proof {
            if byte == 0xFF {
                assert forall|q: int| byte_idx * 8 <= q < byte_idx * 8 + 8 implies #[trigger] u0[q] by {
                    assert(q / 8 == byte_idx);
                    lemma_full_byte_bit((q % 8) as u8);
                    assert((byte & (1u8 << ((q % 8) as u8))) != 0);
                }
            }
        }
        byte_idx = byte_idx + 1;
    }
    None
}

/// Marks the page holding `addr` as free again.
pub fn free_frame(bitmap: &mut [u8], addr: u64)
    ensures
        final(bitmap)@.len() == old(bitmap)@.len(),
        page_of(addr) < used_pages(old(bitmap)@).len() ==> used_pages(final(bitmap)@)
            == used_pages(old(bitmap)@).update(page_of(addr) as int, false),
        page_of(addr) >= used_pages(old(bitmap)@).len() ==> final(bitmap)@ == old(bitmap)@,
{
    unreserve_page(bitmap, addr);
}

/// Freeing the frame that an allocation handed out restores the usage map
/// that was there before the allocation.
pub proof fn free_undoes_alloc(used: Seq<bool>, p: int)
    requires
        lowest_free(used, p),
    ensures
        used.update(p, true).update(p, false) == used,
{
    assert(used.update(p, true).update(p, false) =~= used);
}

/// Two allocations in a row, with no free in between, hand out different
/// frames, the second one higher than the first.
pub proof fn allocations_are_distinct(used: Seq<bool>, p: int, q: int)
    requires
        lowest_free(used, p),
        lowest_free(used.update(p, true), q),
    ensures
        q != p,
        q > p,
{
    if q < p {
        assert(used.update(p, true)[q] == used[q]);
    }
}

/// The end of the highest region of the memory map (0 for none).
pub open spec fn max_top(entries: Seq<MemoryMapEntry>) -> nat
    decreases entries.len(),
{
    if entries.len() == 0 {
        0
    } else {
        let top = entries.last().base + entries.last().length;
        let rest = max_top(entries.drop_last());
        if top > rest {
            top as nat
        } else {
            rest
        }
    }
}

/// The first usable region at least `size` bytes long.
pub open spec fn first_fit(entries: Seq<MemoryMapEntry>, size: nat) -> Option<int>
    decreases entries.len(),
{
    if entries.len() == 0 {
        None
    } else if entries[0].entry_type == MemoryRegionKind::Usable && entries[0].length >= size {
        Some(0)
    } else {
        match first_fit(entries.drop_first(), size) {
            Some(i) => Some(i + 1),
            None => None,
        }
    }
}

/// Where the page bitmap goes and how big it is.
#[derive(Debug, Clone, Copy, PartialEq, Eq, Structural)]
pub struct PmmLayout {
    /// Pages up to the end of the highest region.
    pub total_pages: u64,
    /// One bit per page, rounded down to whole bytes.
    pub bitmap_size: u64,
    /// The start of the first usable region that holds the bitmap.
    pub bitmap_addr: u64,
}

/// The bitmap layout for a memory map: none when no usable region is large
/// enough to hold the bitmap.
pub open spec fn layout_of(entries: Seq<MemoryMapEntry>) -> Option<PmmLayout> {
    let total = max_top(entries) / 4096;
    let size = total / 8;
    match first_fit(entries, size) {
        Some(k) => Some(PmmLayout { total_pages: total as u64, bitmap_size: size as u64, bitmap_addr: entries[k].base }),
        None => None,
    }
}

/// Whether no region of the map ends past the top of the address space.
pub open spec fn regions_fit(entries: Seq<MemoryMapEntry>) -> bool {
    forall|k: int| 0 <= k < entries.len() ==> #[trigger] entries[k].base + entries[k].length <= u64::MAX
}

proof fn lemma_first_fit_at(entries: Seq<MemoryMapEntry>, size: nat, i: int)
    requires
        0 <= i < entries.len(),
        entries[i].entry_type == MemoryRegionKind::Usable && entries[i].length >= size,
        forall|j: int| 0 <= j < i ==> !(#[trigger] entries[j].entry_type == MemoryRegionKind::Usable && entries[j].length >= size),
    ensures
        first_fit(entries, size) == Some(i),
    decreases i,
{
    if i > 0 {
        let e = entries.drop_first();
        assert forall|j: int| 0 <= j < i - 1 implies !(#[trigger] e[j].entry_type == MemoryRegionKind::Usable && e[j].length
            >= size) by {
            assert(e[j] == entries[j + 1]);
        }
        lemma_first_fit_at(e, size, i - 1);
    }
}

proof fn lemma_first_fit_none(entries: Seq<MemoryMapEntry>, size: nat)
    requires
        forall|j: int| 0 <= j < entries.len() ==> !(#[trigger] entries[j].entry_type == MemoryRegionKind::Usable && entries[j].length >= size),
    ensures
        first_fit(entries, size) is None,
    decreases entries.len(),
{
    if entries.len() > 0 {
        let e = entries.drop_first();
        assert forall|j: int| 0 <= j < e.len() implies !(#[trigger] e[j].entry_type == MemoryRegionKind::Usable && e[j].length
            >= size) by {
            assert(e[j] == entries[j + 1]);
        }
        lemma_first_fit_none(e, size);
    }
}

/// Sizes the page bitmap from the memory map and finds it a home: the
/// first usable region large enough.
pub fn plan_bitmap(entries: &[MemoryMapEntry]) -> (r: Option<PmmLayout>)
    requires
        regions_fit(entries@),
    ensures
        r == layout_of(entries@),
{
    let mut max_address: u64 = 0;
    let mut i: usize = 0;
    while i < entries.len()
        invariant
            0 <= i <= entries@.len(),
            regions_fit(entries@),
            max_address == max_top(entries@.take(i as int)),
        decreases entries@.len() - i,
    {
        let top = entries[i].base + entries[i].length;
        assert(entries@.take(i + 1).drop_last() =~= entries@.take(i as int));
        if top > max_address {
            max_address = top;
        }
        i = i + 1;
    }
    assert(entries@.take(entries@.len() as int) =~= entries@);
    let total_pages = max_address / 4096;
    let bitmap_size = total_pages / 8;
    assert(max_address == max_top(entries@));
    let mut k: usize = 0;
    while k < entries.len()
        invariant
            0 <= k <= entries@.len(),
            total_pages == max_top(entries@) / 4096,
            bitmap_size == total_pages / 8,
            forall|j: int| 0 <= j < k ==> !(#[trigger] entries@[j].entry_type == MemoryRegionKind::Usable
                && entries@[j].length >= bitmap_size),
        decreases entries@.len() - k,
    {
        let e = entries[k];
        if e.entry_type == MemoryRegionKind::Usable && e.length >= bitmap_size {
            proof {
                lemma_first_fit_at(entries@, bitmap_size as nat, k as int);
                assert(layout_of(entries@) == Some(PmmLayout { total_pages, bitmap_size, bitmap_addr: e.base }));
            }
            return Some(PmmLayout { total_pages, bitmap_size, bitmap_addr: e.base });
        }
        k = k + 1;
    }
    proof {
        lemma_first_fit_none(entries@, bitmap_size as nat);
    }
    None
}

/// Whether page `p` lies in a usable region of the map: regions are taken
/// page by page from their start, whole pages only.
pub open spec fn usable_page(entries: Seq<MemoryMapEntry>, p: int) -> bool
    decreases entries.len(),
{
    if entries.len() == 0 {
        false
    } else {
        let e = entries.last();
        usable_page(entries.drop_last(), p) || (e.entry_type == MemoryRegionKind::Usable && e.base / 4096 <= p
            < e.base / 4096 + e.length / 4096)
    }
}

/// The usage map a fresh bitmap records: a page is free when it lies in a
/// usable region and not under the bitmap itself.
pub open spec fn initial_usage(entries: Seq<MemoryMapEntry>, bitmap_addr: u64, pages: nat, size: nat) -> Seq<bool> {
    Seq::new(
        pages,
        |p: int|
            !usable_page(entries, p) || (bitmap_addr / 4096 <= p < bitmap_addr / 4096 + (size + 4095) / 4096),
    )
}

proof fn lemma_page_of_offset(base: u64, j: u64)
    requires
        base + j * 4096 <= u64::MAX,
    ensures
        page_of((base + j * 4096) as u64) == base / 4096 + j,
{
    assert((base + j * 4096) / 4096 == base / 4096 + j) by (nonlinear_arith);
}

/// Fills a fresh bitmap for the memory map: every page in use, then the
/// pages of the usable regions free, then the bitmap's own pages in use
/// again. Pages past the end of the bitmap are not recorded.
pub fn init_bitmap(bitmap: &mut [u8], entries: &[MemoryMapEntry], bitmap_addr: u64)
    requires
        regions_fit(entries@),
        bitmap_addr + (old(bitmap)@.len() + 4095) / 4096 * 4096 <= u64::MAX,
    ensures
        final(bitmap)@.len() == old(bitmap)@.len(),
        used_pages(final(bitmap)@) == initial_usage(
            entries@,
            bitmap_addr,
            old(bitmap)@.len() * 8,
            old(bitmap)@.len() as nat,
        ),
{
    let n = bitmap.len();
    let ghost pages = (n * 8) as nat;
    let mut b: usize = 0;
    while b < n
        invariant
            n == bitmap@.len(),
            0 <= b <= n,
            forall|j: int| 0 <= j < b ==> #[trigger] bitmap@[j] == 0xFFu8,
        decreases n - b,
    {
        bitmap[b] = 0xFF;
        b = b + 1;
    }
    proof {
        assert forall|p: int| 0 <= p < pages implies #[trigger] used_pages(bitmap@)[p] by {
            lemma_full_byte_bit((p % 8) as u8);
        }
        assert(used_pages(bitmap@) =~= Seq::new(pages, |p: int| !usable_page(entries@.take(0), p)));
    }
    let mut k: usize = 0;
    while k < entries.len()
        invariant
            n == bitmap@.len(),
            pages == n * 8,
            0 <= k <= entries@.len(),
            regions_fit(entries@),
            used_pages(bitmap@) == Seq::new(pages, |p: int| !usable_page(entries@.take(k as int), p)),
        decreases entries@.len() - k,
    {
        let e = entries[k];
        let ghost before_k = entries@.take(k as int);
        proof {
            assert(entries@.take(k + 1).drop_last() =~= before_k);
            assert(e.base + e.length <= u64::MAX);
        }
        if e.entry_type == MemoryRegionKind::Usable {
            let count = e.length / 4096;
            let mut page: u64 = 0;
            while page < count
                invariant
                    n == bitmap@.len(),
                    pages == n * 8,
                    e.base + e.length <= u64::MAX,
                    count == e.length / 4096,
                    0 <= page <= count,
                    used_pages(bitmap@) == Seq::new(
                        pages,
                        |p: int| !(usable_page(before_k, p) || (e.base / 4096 <= p < e.base / 4096 + page)),
                    ),
                decreases count - page,
            {
                assert(page * 4096 <= e.length) by (nonlinear_arith)
                    requires
                        page < count,
                        count == e.length / 4096,
                ;
                let addr = e.base + page * 4096;
                proof {
                    lemma_page_of_offset(e.base, page);
                }
                unreserve_page(bitmap, addr);
                assert(used_pages(bitmap@) =~= Seq::new(
                    pages,
                    |p: int| !(usable_page(before_k, p) || (e.base / 4096 <= p < e.base / 4096 + page + 1)),
                ));
                page = page + 1;
            }
        }
        assert(used_pages(bitmap@) =~= Seq::new(pages, |p: int| !usable_page(entries@.take(k + 1), p)));
        k = k + 1;
    }
    assert(entries@.take(entries@.len() as int) =~= entries@);
    let own: u64 = (n / 4096 + if n % 4096 != 0 { 1 } else { 0 }) as u64;
    assert(own == (n + 4095) / 4096) by (nonlinear_arith)
        requires
            own == n / 4096 + if n % 4096 != 0 { 1int } else { 0int },
    ;
    let mut i: u64 = 0;
    while i < own
        invariant
            n == bitmap@.len(),
            pages == n * 8,
            own == (n + 4095) / 4096,
            bitmap_addr + own * 4096 <= u64::MAX,
            0 <= i <= own,
            used_pages(bitmap@) == Seq::new(
                pages,
                |p: int| !usable_page(entries@, p) || (bitmap_addr / 4096 <= p < bitmap_addr / 4096 + i),
            ),
        decreases own - i,
    {
        let addr = bitmap_addr + i * 4096;
        proof {
            lemma_page_of_offset(bitmap_addr, i);
        }
        reserve_page(bitmap, addr);
        assert(used_pages(bitmap@) =~= Seq::new(
            pages,
            |p: int| !usable_page(entries@, p) || (bitmap_addr / 4096 <= p < bitmap_addr / 4096 + i + 1),
        ));
        i = i + 1;
    }
}


/// After the bitmap is set up, the pages that hold the bitmap itself and
/// every page outside the usable regions are in use.
pub proof fn bitmap_and_unusable_pages_stay_reserved(
    entries: Seq<MemoryMapEntry>,
    bitmap_addr: u64,
    pages: nat,
    size: nat,
    p: int,
)
    requires
        0 <= p < pages,
        (bitmap_addr / 4096 <= p < bitmap_addr / 4096 + (size + 4095) / 4096) || !usable_page(entries, p),
    ensures
        initial_usage(entries, bitmap_addr, pages, size)[p],
{
}

} // verus!
