//! A report of how a virtual address resolves: one log line per level
//! of the page tables, from the top, stopping where the walk cannot go on.
use vstd::prelude::*;
use vstd::string::StringSliceAdditionalSpecFns;
use vstd::utf8::valid_utf8;
use crate::ring_buffer::RingBuffer;
use crate::logger::{Logger, RtcTime};
use crate::text::{hex_digits, dec_digits, lemma_ascii_valid_utf8};
use crate::message::{
    info_logged, ok_logged, warn_logged, error_logged, upper_hex16, push_text, push_dec, push_upper_hex,
    push_upper_hex16, empty_text, log_info, log_ok, push_valid,
};
use crate::paging::{
    ADDR_MASK, ALL_FLAGS, PRESENT, WRITABLE, USER_ACCESSIBLE, WRITE_THROUGH, NO_CACHE, ACCESSED, DIRTY, HUGE_PAGE,
    GLOBAL, NO_EXECUTE, HHDM_OFFSET, has_flag,
};

verus! {

/// `[name]` when the flag is set, else nothing.
pub open spec fn flag_name_if(bits: u64, flag: u64, name: Seq<u8>) -> Seq<Seq<u8>> {
    if bits & flag != 0 {
        seq![name]
    } else {
        Seq::empty()
    }
}

/// The names of the flags set in `bits`, in the order the flags are
/// declared.
pub open spec fn flag_names(bits: u64) -> Seq<Seq<u8>> {
    flag_name_if(bits, PRESENT, "PRESENT".spec_bytes()) + flag_name_if(bits, WRITABLE, "WRITABLE".spec_bytes())
        + flag_name_if(bits, USER_ACCESSIBLE, "USER_ACCESSIBLE".spec_bytes()) + flag_name_if(
        bits,
        WRITE_THROUGH,
        "WRITE_THROUGH".spec_bytes(),
    ) + flag_name_if(bits, NO_CACHE, "NO_CACHE".spec_bytes()) + flag_name_if(bits, ACCESSED, "ACCESSED".spec_bytes())
        + flag_name_if(bits, DIRTY, "DIRTY".spec_bytes()) + flag_name_if(bits, HUGE_PAGE, "HUGE_PAGE".spec_bytes())
        + flag_name_if(bits, GLOBAL, "GLOBAL".spec_bytes()) + flag_name_if(bits, NO_EXECUTE, "NO_EXECUTE".spec_bytes())
}

/// Names joined with ` | `.
pub open spec fn joined(names: Seq<Seq<u8>>) -> Seq<u8>
    decreases names.len(),
{
    if names.len() == 0 {
        Seq::empty()
    } else if names.len() == 1 {
        names[0]
    } else {
        joined(names.drop_last()) + " | ".spec_bytes() + names.last()
    }
}

/// How a set of flags is shown: `PageTableFlags(` the names joined with
/// ` | ` `)`, or `PageTableFlags(0x0)` when none is set.
pub open spec fn flags_text(bits: u64) -> Seq<u8> {
    "PageTableFlags(".spec_bytes() + (if flag_names(bits).len() == 0 {
        "0x0".spec_bytes()
    } else {
        joined(flag_names(bits))
    }) + ")".spec_bytes()
}

/// The table index the walk uses at `level` (4 is the top).
pub open spec fn walk_index(level: u8, virt: u64) -> u64 {
    if level == 4 {
        (virt / 0x80_0000_0000) % 512
    } else if level == 3 {
        (virt / 0x4000_0000) % 512
    } else if level == 2 {
        (virt / 0x20_0000) % 512
    } else {
        (virt / 0x1000) % 512
    }
}

/// The indent of a level's lines.
pub open spec fn walk_indent(level: u8) -> Seq<u8> {
    if level == 4 {
        Seq::empty()
    } else if level == 3 {
        "  ".spec_bytes()
    } else if level == 2 {
        "    ".spec_bytes()
    } else {
        "      ".spec_bytes()
    }
}

/// The line that shows the entry found at `level`.
pub open spec fn walk_line(level: u8, virt: u64, entry: u64) -> Seq<u8> {
    walk_indent(level) + "L".spec_bytes() + dec_digits(level as nat) + " Index: ".spec_bytes() + dec_digits(
        walk_index(level, virt) as nat,
    ) + (if level == 1 {
        " | Phys Frame: 0x".spec_bytes()
    } else {
        " | Entry: 0x".spec_bytes()
    }) + hex_digits((entry & ADDR_MASK) as nat) + " | Flags: ".spec_bytes() + flags_text(entry & ALL_FLAGS)
}

/// The first line of a walk.
pub open spec fn walk_header(virt: u64) -> Seq<u8> {
    "--- Detailed Walk: 0x".spec_bytes() + upper_hex16(virt) + " ---".spec_bytes()
}

/// What the walk logs at `level` for `entry`, and the table it goes on
/// with: levels 4 and 3 need a present entry; level 2 stops at a 2 MiB page
/// or a missing entry; level 1 ends the walk and warns when the page is not
/// reachable from user mode.
pub open spec fn walk_step(level: u8, virt: u64, entry: u64, log: Seq<u8>, time: RtcTime) -> (Seq<u8>, Option<u64>) {
    let line = walk_line(level, virt, entry);
    if level == 1 {
        let l = ok_logged(log, time, line);
        if !has_flag(entry, USER_ACCESSIBLE) {
            (error_logged(l, time, "      CRITICAL: USER_ACCESSIBLE bit is MISSING at L1!".spec_bytes()), None)
        } else {
            (l, None)
        }
    } else {
        let l = info_logged(log, time, line);
        if level == 2 && has_flag(entry, HUGE_PAGE) {
            (warn_logged(l, time, "    L2: HUGE_PAGE (2MB) detected. Stopping walk.".spec_bytes()), None)
        } else if !has_flag(entry, PRESENT) {
            (error_logged(l, time, walk_indent(level) + "L".spec_bytes() + dec_digits(level as nat) + ": Table not present!".spec_bytes()), None)
        } else {
            (l, Some(entry & ADDR_MASK))
        }
    }
}

/// Appends the names of the set flags, ` | ` between them.
fn push_flag(out: &mut Vec<u8>, count: &mut usize, bits: u64, flag: u64, name: &str, Ghost(names): Ghost<Seq<Seq<u8>>>)
    requires
        valid_utf8(old(out)@),
        old(out)@ == joined(names),
        *old(count) == names.len(),
        names.len() <= 10,
    ensures
        valid_utf8(final(out)@),
        final(out)@ == joined(names + flag_name_if(bits, flag, name.spec_bytes())),
        *final(count) == (names + flag_name_if(bits, flag, name.spec_bytes())).len(),
{
    if bits & flag != 0 {
        if *count > 0 {
            push_text(out, " | ");
        }
        push_text(out, name);
        *count = *count + 1;
        proof {
            let n2 = names + seq![name.spec_bytes()];
            assert(n2.drop_last() =~= names);
            if names.len() == 0 {
                assert(old(out)@ =~= Seq::<u8>::empty());
                assert(final(out)@ =~= name.spec_bytes());
            }
        }
    } else {
        assert(names + Seq::<Seq<u8>>::empty() =~= names);
    }
}

/// How a set of flags is shown (see `flags_text`).
pub fn flags_debug(bits: u64) -> (v: Vec<u8>)
    ensures
        v@ == flags_text(bits & ALL_FLAGS),
        valid_utf8(v@),
{
    let b = bits & ALL_FLAGS;
    let mut names = empty_text();
    let mut count: usize = 0;
    let ghost n0 = Seq::<Seq<u8>>::empty();
    push_flag(&mut names, &mut count, b, PRESENT, "PRESENT", Ghost(n0));
    let ghost n1 = n0 + flag_name_if(b, PRESENT, "PRESENT".spec_bytes());
    push_flag(&mut names, &mut count, b, WRITABLE, "WRITABLE", Ghost(n1));
    let ghost n2 = n1 + flag_name_if(b, WRITABLE, "WRITABLE".spec_bytes());
    push_flag(&mut names, &mut count, b, USER_ACCESSIBLE, "USER_ACCESSIBLE", Ghost(n2));
    let ghost n3 = n2 + flag_name_if(b, USER_ACCESSIBLE, "USER_ACCESSIBLE".spec_bytes());
    push_flag(&mut names, &mut count, b, WRITE_THROUGH, "WRITE_THROUGH", Ghost(n3));
    let ghost n4 = n3 + flag_name_if(b, WRITE_THROUGH, "WRITE_THROUGH".spec_bytes());
    push_flag(&mut names, &mut count, b, NO_CACHE, "NO_CACHE", Ghost(n4));
    let ghost n5 = n4 + flag_name_if(b, NO_CACHE, "NO_CACHE".spec_bytes());
    push_flag(&mut names, &mut count, b, ACCESSED, "ACCESSED", Ghost(n5));
    let ghost n6 = n5 + flag_name_if(b, ACCESSED, "ACCESSED".spec_bytes());
    push_flag(&mut names, &mut count, b, DIRTY, "DIRTY", Ghost(n6));
    let ghost n7 = n6 + flag_name_if(b, DIRTY, "DIRTY".spec_bytes());
    push_flag(&mut names, &mut count, b, HUGE_PAGE, "HUGE_PAGE", Ghost(n7));
    let ghost n8 = n7 + flag_name_if(b, HUGE_PAGE, "HUGE_PAGE".spec_bytes());
    push_flag(&mut names, &mut count, b, GLOBAL, "GLOBAL", Ghost(n8));
    let ghost n9 = n8 + flag_name_if(b, GLOBAL, "GLOBAL".spec_bytes());
    push_flag(&mut names, &mut count, b, NO_EXECUTE, "NO_EXECUTE", Ghost(n9));
    let ghost n10 = n9 + flag_name_if(b, NO_EXECUTE, "NO_EXECUTE".spec_bytes());
    assert(n10 =~= flag_names(b));
    let mut v = empty_text();
    push_text(&mut v, "PageTableFlags(");
    if count == 0 {
        push_text(&mut v, "0x0");
    } else {
        push_valid(&mut v, &names);
    }
    push_text(&mut v, ")");
    assert(v@ =~= flags_text(b));
    v
}

/// Logs the first line of a walk of `virt`.
pub fn debug_walk_begin(virt: u64, log: &mut RingBuffer, time: RtcTime)
    requires
        old(log).wf(),
    ensures
        final(log).wf(),
        final(log).contents() == info_logged(old(log).contents(), time, walk_header(virt)),
{
    let mut msg = empty_text();
    push_text(&mut msg, "--- Detailed Walk: 0x");
    push_upper_hex16(&mut msg, virt);
    push_text(&mut msg, " ---");
    assert(msg@ =~= walk_header(virt));
    log_info(log, time, &msg);
}

fn index_at(level: u8, virt: u64) -> (i: u64)
    requires
        1 <= level <= 4,
    ensures
        i == walk_index(level, virt),
{
    if level == 4 {
        (virt / 0x80_0000_0000) % 512
    } else if level == 3 {
        (virt / 0x4000_0000) % 512
    } else if level == 2 {
        (virt / 0x20_0000) % 512
    } else {
        (virt / 0x1000) % 512
    }
}

fn indent_str(level: u8) -> (s: &'static str)
    ensures
        s.spec_bytes() == walk_indent(level),
{
    proof {
        reveal_strlit("");
    }
    if level == 4 {
        ""
    } else if level == 3 {
        "  "
    } else if level == 2 {
        "    "
    } else {
        "      "
    }
}

/// Logs the entry the walk found at `level` (4 is the top) and says which
/// table it goes on with, if any (see `walk_step`).
pub fn debug_walk_level(level: u8, virt: u64, entry: u64, log: &mut RingBuffer, time: RtcTime) -> (next: Option<u64>)
    requires
        old(log).wf(),
        1 <= level <= 4,
    ensures
        final(log).wf(),
        (final(log).contents(), next) == walk_step(level, virt, entry, old(log).contents(), time),
{
    let mut line = empty_text();
    push_text(&mut line, indent_str(level));
    push_text(&mut line, "L");
    push_dec(&mut line, level as u64);
    push_text(&mut line, " Index: ");
    push_dec(&mut line, index_at(level, virt));
    if level == 1 {
        push_text(&mut line, " | Phys Frame: 0x");
    } else {
        push_text(&mut line, " | Entry: 0x");
    }
    push_upper_hex(&mut line, entry & ADDR_MASK);
    push_text(&mut line, " | Flags: ");
    let f = flags_debug(entry);
    push_valid(&mut line, &f);
    assert(line@ =~= walk_line(level, virt, entry));
    let flags = entry & ALL_FLAGS;
    if level == 1 {
        log_ok(log, time, &line);
        if flags & USER_ACCESSIBLE != USER_ACCESSIBLE {
            Logger::new().error(log, time, "      CRITICAL: USER_ACCESSIBLE bit is MISSING at L1!");
        }
        return None;
    }
    log_info(log, time, &line);
    if level == 2 && flags & HUGE_PAGE == HUGE_PAGE {
        Logger::new().warn(log, time, "    L2: HUGE_PAGE (2MB) detected. Stopping walk.");
        return None;
    }
    if flags & PRESENT != PRESENT {
        let mut msg = empty_text();
        push_text(&mut msg, indent_str(level));
        push_text(&mut msg, "L");
        push_dec(&mut msg, level as u64);
        push_text(&mut msg, ": Table not present!");
        assert(msg@ =~= walk_indent(level) + "L".spec_bytes() + dec_digits(level as nat) + ": Table not present!".spec_bytes());
        crate::message::log_error(log, time, &msg);
        return None;
    }
    Some(entry & ADDR_MASK)
}

/// Where the entry for `virt` lies in the table at `table_phys`, seen
/// through the direct map of physical memory.
pub fn walk_entry_address(table_phys: u64, level: u8, virt: u64) -> (a: u64)
    requires
        1 <= level <= 4,
        table_phys + HHDM_OFFSET + 4096 <= u64::MAX,
    ensures
        a == table_phys + HHDM_OFFSET + 8 * walk_index(level, virt),
{
    table_phys + HHDM_OFFSET + 8 * index_at(level, virt)
}

} // verus!
