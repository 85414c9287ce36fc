//! Boot-time reports in the kernel log: the processor, the memory map
//! totals and the files of the file system.
use vstd::prelude::*;
use vstd::string::StringSliceAdditionalSpecFns;
use vstd::utf8::{valid_utf8, encode_utf8};
use crate::ring_buffer::RingBuffer;
use crate::logger::{Logger, RtcTime};
use crate::text::{dec_digits, lemma_ascii_valid_utf8, lemma_add_assoc};
use crate::utils::{size_text, format_size_bytes};
use crate::cpuinfo::{CpuInfo, CpuFeatures};
use crate::meminfo::MemoryStats;
use crate::vfs::{VfsNode, NodeOps, BootModule, module_name, lists_module, VfsOperations};
use crate::shell::{brand_text, features_text, bool_text};
use crate::message::{
    info_logged, error_logged, hex16, push_text, push_dec, push_hex16, push_ascii, push_valid, empty_text, log_info,
};

verus! {

/// The lines `print_cpu_info` logs, in order.
pub open spec fn cpu_lines(cpu: CpuInfo) -> Seq<Seq<u8>> {
    seq![
        "Vendor:       ^&f".spec_bytes() + cpu.vendor.spec_bytes(),
        "Brand:        ^&f".spec_bytes() + brand_text(cpu.brand@),
        "Cores:        ^&f".spec_bytes() + dec_digits(cpu.cores as nat),
        "Threads:      ^&f".spec_bytes() + dec_digits(cpu.threads as nat),
        "Features:     ^&f".spec_bytes() + features_text(cpu.features),
        "Temp Sensor:  ^&f".spec_bytes() + bool_text(cpu.temp_support),
    ]
}

/// The log after info lines `lines`, in order.
pub open spec fn info_lines(log: Seq<u8>, time: RtcTime, lines: Seq<Seq<u8>>) -> Seq<u8>
    decreases lines.len(),
{
    if lines.len() == 0 {
        log
    } else {
        info_logged(info_lines(log, time, lines.drop_last()), time, lines.last())
    }
}

proof fn lemma_info_lines_push(log: Seq<u8>, time: RtcTime, lines: Seq<Seq<u8>>, line: Seq<u8>)
    ensures
        info_lines(log, time, lines.push(line)) == info_logged(info_lines(log, time, lines), time, line),
{
    assert(lines.push(line).drop_last() =~= lines);
}

fn push_bool_text(out: &mut Vec<u8>, b: bool)
    requires
        valid_utf8(old(out)@),
    ensures
        final(out)@ == old(out)@ + bool_text(b),
        valid_utf8(final(out)@),
{
    if b {
        push_text(out, "true");
    } else {
        push_text(out, "false");
    }
}

fn push_features_text(out: &mut Vec<u8>, f: CpuFeatures)
    requires
        valid_utf8(old(out)@),
    ensures
        final(out)@ == old(out)@ + features_text(f),
        valid_utf8(final(out)@),
{
    let ghost o = out@;
    push_text(out, "CpuFeatures { sse: ");
    let ghost acc = "CpuFeatures { sse: ".spec_bytes();
    push_bool_text(out, f.sse);
    proof { lemma_add_assoc(o, acc, bool_text(f.sse)); }
    let ghost acc = acc + bool_text(f.sse);
    push_text(out, ", sse2: ");
    proof { lemma_add_assoc(o, acc, ", sse2: ".spec_bytes()); }
    let ghost acc = acc + ", sse2: ".spec_bytes();
    push_bool_text(out, f.sse2);
    proof { lemma_add_assoc(o, acc, bool_text(f.sse2)); }
    let ghost acc = acc + bool_text(f.sse2);
    push_text(out, ", avx: ");
    proof { lemma_add_assoc(o, acc, ", avx: ".spec_bytes()); }
    let ghost acc = acc + ", avx: ".spec_bytes();
    push_bool_text(out, f.avx);
    proof { lemma_add_assoc(o, acc, bool_text(f.avx)); }
    let ghost acc = acc + bool_text(f.avx);
    push_text(out, ", nx: ");
    proof { lemma_add_assoc(o, acc, ", nx: ".spec_bytes()); }
    let ghost acc = acc + ", nx: ".spec_bytes();
    push_bool_text(out, f.nx);
    proof { lemma_add_assoc(o, acc, bool_text(f.nx)); }
    let ghost acc = acc + bool_text(f.nx);
    push_text(out, ", htt: ");
    proof { lemma_add_assoc(o, acc, ", htt: ".spec_bytes()); }
    let ghost acc = acc + ", htt: ".spec_bytes();
    push_bool_text(out, f.htt);
    proof { lemma_add_assoc(o, acc, bool_text(f.htt)); }
    let ghost acc = acc + bool_text(f.htt);
    push_text(out, " }");
    proof { lemma_add_assoc(o, acc, " }".spec_bytes()); }
}

fn push_brand_text(out: &mut Vec<u8>, cpu: &CpuInfo)
    requires
        valid_utf8(old(out)@),
    ensures
        final(out)@ == old(out)@ + brand_text(cpu.brand@),
        valid_utf8(final(out)@),
{
    let mut b: Vec<u8> = Vec::new();
    crate::shell::push_brand(&mut b, cpu);
    proof {
        assert(b@ =~= brand_text(cpu.brand@));
        vstd::utf8::encode_utf8_valid_utf8(crate::strs::trimmed(
            if vstd::utf8::valid_utf8(cpu.brand@) {
                vstd::utf8::decode_utf8(cpu.brand@)
            } else {
                "Invalid UTF-8"@
            },
        ));
    }
    push_valid(out, &b);
}

/// Logs the processor's description, one line per item.
pub fn print_cpu_info(cpu: &CpuInfo, log: &mut RingBuffer, time: RtcTime)
    requires
        old(log).wf(),
    ensures
        final(log).wf(),
        final(log).contents() == info_lines(old(log).contents(), time, cpu_lines(*cpu)),
{
    let ghost l0 = log.contents();
    let ghost lines = cpu_lines(*cpu);
    let mut m = empty_text();
    push_text(&mut m, "Vendor:       ^&f");
    push_text(&mut m, cpu.vendor);
    log_info(log, time, &m);
    proof {
        assert(lines.take(1) =~= Seq::<Seq<u8>>::empty().push(lines[0]));
        lemma_info_lines_push(l0, time, Seq::empty(), lines[0]);
    }
    let mut m = empty_text();
    push_text(&mut m, "Brand:        ^&f");
    push_brand_text(&mut m, cpu);
    log_info(log, time, &m);
    proof {
        assert(lines.take(2) =~= lines.take(1).push(lines[1]));
        lemma_info_lines_push(l0, time, lines.take(1), lines[1]);
    }
    let mut m = empty_text();
    push_text(&mut m, "Cores:        ^&f");
    push_dec(&mut m, cpu.cores as u64);
    log_info(log, time, &m);
    proof {
        assert(lines.take(3) =~= lines.take(2).push(lines[2]));
        lemma_info_lines_push(l0, time, lines.take(2), lines[2]);
    }
    let mut m = empty_text();
    push_text(&mut m, "Threads:      ^&f");
    push_dec(&mut m, cpu.threads as u64);
    log_info(log, time, &m);
    proof {
        assert(lines.take(4) =~= lines.take(3).push(lines[3]));
        lemma_info_lines_push(l0, time, lines.take(3), lines[3]);
    }
    let mut m = empty_text();
    push_text(&mut m, "Features:     ^&f");
    push_features_text(&mut m, cpu.features);
    log_info(log, time, &m);
    proof {
        assert(lines.take(5) =~= lines.take(4).push(lines[4]));
        lemma_info_lines_push(l0, time, lines.take(4), lines[4]);
    }
    let mut m = empty_text();
    push_text(&mut m, "Temp Sensor:  ^&f");
    push_bool_text(&mut m, cpu.temp_support);
    log_info(log, time, &m);
    proof {
        assert(lines.take(6) =~= lines.take(5).push(lines[5]));
        lemma_info_lines_push(l0, time, lines.take(5), lines[5]);
        assert(lines.take(6) =~= lines);
    }
}

/// The lines `print_memory_info` logs for the totals.
pub open spec fn memory_lines(s: MemoryStats) -> Seq<Seq<u8>> {
    seq![
        "RAM Usable:     ^&f".spec_bytes() + size_text(s.usable as nat),
        "RAM Reserved:   ^&f".spec_bytes() + size_text(s.reserved as nat),
        "Kernel Code:    ^&f".spec_bytes() + size_text(s.kernel as nat),
        "Boot Reclaim:   ^&f".spec_bytes() + size_text(s.boot_reclaim as nat),
        "Reserved Count: ^&f".spec_bytes() + dec_digits(s.reserved_count as nat),
    ]
}

fn log_size_line(log: &mut RingBuffer, time: RtcTime, label: &str, bytes: u64)
    requires
        old(log).wf(),
    ensures
        final(log).wf(),
        final(log).contents() == info_logged(old(log).contents(), time, label.spec_bytes() + size_text(bytes as nat)),
{
    let mut m = empty_text();
    push_text(&mut m, label);
    let v = format_size_bytes(bytes);
    push_ascii(&mut m, &v);
    log_info(log, time, &m);
}

/// Logs the memory totals, one line each; without a memory map, an error.
pub fn print_memory_info(stats: Option<MemoryStats>, log: &mut RingBuffer, time: RtcTime)
    requires
        old(log).wf(),
    ensures
        final(log).wf(),
        stats is None ==> final(log).contents() == error_logged(
            old(log).contents(),
            time,
            "Memory map not found!".spec_bytes(),
        ),
        stats matches Some(s) ==> final(log).contents() == info_lines(old(log).contents(), time, memory_lines(s)),
{
    match stats {
        None => {
            Logger::new().error(log, time, "Memory map not found!");
        },
        Some(s) => {
            let ghost l0 = log.contents();
            let ghost lines = memory_lines(s);
            log_size_line(log, time, "RAM Usable:     ^&f", s.usable);
            proof {
                assert(lines.take(1) =~= Seq::<Seq<u8>>::empty().push(lines[0]));
                lemma_info_lines_push(l0, time, Seq::empty(), lines[0]);
            }
            log_size_line(log, time, "RAM Reserved:   ^&f", s.reserved);
            proof {
                assert(lines.take(2) =~= lines.take(1).push(lines[1]));
                lemma_info_lines_push(l0, time, lines.take(1), lines[1]);
            }
            log_size_line(log, time, "Kernel Code:    ^&f", s.kernel);
            proof {
                assert(lines.take(3) =~= lines.take(2).push(lines[2]));
                lemma_info_lines_push(l0, time, lines.take(2), lines[2]);
            }
            log_size_line(log, time, "Boot Reclaim:   ^&f", s.boot_reclaim);
            proof {
                assert(lines.take(4) =~= lines.take(3).push(lines[3]));
                lemma_info_lines_push(l0, time, lines.take(3), lines[3]);
            }
            let mut m = empty_text();
            push_text(&mut m, "Reserved Count: ^&f");
            push_dec(&mut m, s.reserved_count);
            log_info(log, time, &m);
            proof {
                assert(lines.take(5) =~= lines.take(4).push(lines[4]));
                lemma_info_lines_push(l0, time, lines.take(4), lines[4]);
                assert(lines.take(5) =~= lines);
            }
        },
    }
}

/// How a boot module is reported.
pub open spec fn found_node_msg(m: BootModule) -> Seq<u8> {
    "  Found node: ".spec_bytes() + encode_utf8(module_name(m.cmdline@)) + " (".spec_bytes() + dec_digits(
        m.data@.len(),
    ) + " bytes) at 0x".spec_bytes() + hex16(m.addr)
}

/// What `dump_vfs_at_boot` logs: a line per module of the root directory.
pub open spec fn vfs_dump(log: Seq<u8>, time: RtcTime, root: Option<&VfsNode>) -> Seq<u8> {
    match root {
        Some(r) => match r.operations {
            NodeOps::Root(fs) => info_lines(log, time, fs.modules@.map_values(|m: BootModule| found_node_msg(m))),
            NodeOps::Module(_) => log,
        },
        None => log,
    }
}

/// Logs the files of the root directory with their sizes and addresses.
pub fn dump_vfs_at_boot(root: Option<&VfsNode>, log: &mut RingBuffer, time: RtcTime)
    requires
        old(log).wf(),
    ensures
        final(log).wf(),
        final(log).contents() == vfs_dump(old(log).contents(), time, root),
{
    if let Some(r) = root {
        if let Ok(entries) = r.operations.readdir() {
            let ghost mods = r.operations->Root_0.modules@;
            let ghost msgs = mods.map_values(|m: BootModule| found_node_msg(m));
            let ghost l0 = log.contents();
            let mut i: usize = 0;
            while i < entries.len()
                invariant
                    0 <= i <= entries@.len(),
                    entries@.len() == mods.len(),
                    msgs == mods.map_values(|m: BootModule| found_node_msg(m)),
                    forall|j: int| 0 <= j < entries@.len() ==> lists_module(#[trigger] entries@[j], mods[j]),
                    log.wf(),
                    log.contents() == info_lines(l0, time, msgs.take(i as int)),
                decreases entries@.len() - i,
            {
                let e = &entries[i];
                proof {
                    assert(lists_module(entries@[i as int], mods[i as int]));
                }
                let mut m = empty_text();
                push_text(&mut m, "  Found node: ");
                push_text(&mut m, e.name.as_str());
                push_text(&mut m, " (");
                push_dec(&mut m, e.size);
                push_text(&mut m, " bytes) at 0x");
                push_hex16(&mut m, e.inode);
                assert(m@ =~= found_node_msg(mods[i as int]));
                log_info(log, time, &m);
                proof {
                    assert(msgs.take(i + 1) =~= msgs.take(i as int).push(msgs[i as int]));
                    lemma_info_lines_push(l0, time, msgs.take(i as int), msgs[i as int]);
                }
                i = i + 1;
            }
            assert(msgs.take(msgs.len() as int) =~= msgs);
        }
    }
}

} // verus!
