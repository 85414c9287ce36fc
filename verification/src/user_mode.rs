//! Where a user program is placed before the switch to user mode: its
//! image page by page from a fixed base, and a one-page stack above it.
use vstd::prelude::*;

verus! {

/// Where user programs start.
pub const USER_BASE: u64 = 0x400000;

/// The page of the user stack, and the stack pointer a program starts with
/// (the top of that page).
pub const USER_STACK_PAGE: u64 = 0x500000;

pub const USER_STACK_TOP: u64 = 0x501000;

/// One page of a program: where it is mapped and which bytes of the image
/// are copied to its start (the rest of the page is zero).
#[derive(Debug, Clone, Copy, PartialEq, Eq, Structural)]
pub struct PageCopy {
    pub virt: u64,
    pub offset: usize,
    pub len: usize,
}

/// The pages of an image of `len` bytes: as many as it needs, each filled
/// with the next 4096 bytes (fewer in the last).
pub open spec fn image_pages_spec(len: nat) -> Seq<PageCopy> {
    Seq::new(
        (len + 4095) / 4096,
        |i: int|
            PageCopy {
                virt: (USER_BASE + 4096 * i) as u64,
                offset: (4096 * i) as usize,
                len: (if len - 4096 * i < 4096 { len - 4096 * i } else { 4096 }) as usize,
            },
    )
}

/// Lays out an image of `len` bytes.
pub fn image_pages(len: usize) -> (pages: Vec<PageCopy>)
    requires
        len + 4096 <= usize::MAX,
        USER_BASE + len + 4096 <= u64::MAX,
    ensures
        pages@ == image_pages_spec(len as nat),
{
    let count = len / 4096 + if len % 4096 != 0 { 1 } else { 0 };
    assert(count == (len + 4095) / 4096) by (nonlinear_arith)
        requires
            count == len / 4096 + if len % 4096 != 0 { 1int } else { 0int },
    ;
    let mut pages: Vec<PageCopy> = Vec::new();
    let mut i: usize = 0;
    while i < count
        invariant
            0 <= i <= count,
            count == (len + 4095) / 4096,
            len + 4096 <= usize::MAX,
            USER_BASE + len + 4096 <= u64::MAX,
            pages@ == image_pages_spec(len as nat).take(i as int),
        decreases count - i,
    {
        assert(4096 * i < len) by (nonlinear_arith)
            requires
                i < count,
                count == (len + 4095) / 4096,
        ;
        let offset = i * 4096;
        let rest = len - offset;
        let size = if rest < 4096 { rest } else { 4096 };
        pages.push(PageCopy { virt: USER_BASE + offset as u64, offset, len: size });
        assert(pages@ =~= image_pages_spec(len as nat).take(i + 1));
        i = i + 1;
    }
    assert(image_pages_spec(len as nat).take(count as int) =~= image_pages_spec(len as nat));
    pages
}

} // verus!
