//! Per-CPU data.
use vstd::prelude::*;
use vstd::string::StringSliceAdditionalSpecFns;
use crate::cpuinfo::CpuidResult;
use crate::ring_buffer::RingBuffer;
use crate::logger::RtcTime;
use crate::text::dec_digits;
use crate::message::{ok_logged, push_text, push_dec, empty_text, log_ok};

verus! {

/// What each CPU keeps about itself.
pub struct PerCpu {
    pub self_ptr: u64,
    pub kernel_stack: u64,
    pub apic_id: u8,
    pub is_bsp: bool,
    pub current_task_id: u32,
    pub ready_queue: Vec<u32>,
}

impl PerCpu {
    /// The data of a CPU that has not run anything yet: no stack, task 0,
    /// an empty ready queue.
    pub fn new(apic_id: u8, is_bsp: bool) -> (c: Self)
        ensures
            c.self_ptr == 0,
            c.kernel_stack == 0,
            c.apic_id == apic_id,
            c.is_bsp == is_bsp,
            c.current_task_id == 0,
            c.ready_queue@ == Seq::<u32>::empty(),
    {
        PerCpu { self_ptr: 0, apic_id, current_task_id: 0, ready_queue: Vec::new(), is_bsp, kernel_stack: 0 }
    }
}

/// Size of each CPU's kernel stack.
pub const CPU_STACK_SIZE: u64 = 32 * 1024;

/// The local APIC id of the CPU that runs CPUID: bits 24 to 31 of EBX of
/// leaf 1.
pub fn bsp_apic_id(leaf1: CpuidResult) -> (id: u8)
    ensures
        id == (leaf1.ebx >> 24u32) & 0xFF,
{
    let ebx = leaf1.ebx;
    let v = (ebx >> 24u32) & 0xFF;
    assert(v <= 0xFF) by (bit_vector)
        requires
            v == (ebx >> 24u32) & 0xFF,
    ;
    v as u8
}

/// The per-CPU records of the first `cpu_count` processors the ACPI tables
/// listed; the one with the boot processor's APIC id is marked as such.
pub fn plan_cpus(lapic_ids: &[u8], cpu_count: u32, bsp: u8) -> (cpus: Vec<PerCpu>)
    requires
        cpu_count <= lapic_ids@.len(),
    ensures
        cpus@.len() == cpu_count,
        forall|i: int|
            0 <= i < cpu_count ==> {
                &&& (#[trigger] cpus@[i]).apic_id == lapic_ids@[i]
                &&& cpus@[i].is_bsp == (lapic_ids@[i] == bsp)
                &&& cpus@[i].self_ptr == 0
                &&& cpus@[i].kernel_stack == 0
                &&& cpus@[i].current_task_id == 0
                &&& cpus@[i].ready_queue@ == Seq::<u32>::empty()
            },
{
    let mut cpus: Vec<PerCpu> = Vec::new();
    let mut i: usize = 0;
    while i < cpu_count as usize
        invariant
            cpu_count <= lapic_ids@.len(),
            0 <= i <= cpu_count,
            cpus@.len() == i,
            forall|j: int|
                0 <= j < i ==> {
                    &&& (#[trigger] cpus@[j]).apic_id == lapic_ids@[j]
                    &&& cpus@[j].is_bsp == (lapic_ids@[j] == bsp)
                    &&& cpus@[j].self_ptr == 0
                    &&& cpus@[j].kernel_stack == 0
                    &&& cpus@[j].current_task_id == 0
                    &&& cpus@[j].ready_queue@ == Seq::<u32>::empty()
                },
        decreases cpu_count - i,
    {
        let apic_id = lapic_ids[i];
        cpus.push(PerCpu::new(apic_id, apic_id == bsp));
        i = i + 1;
    }
    cpus
}

/// The CPUs the boot loader reports that must be started: all but the
/// boot processor.
pub fn ap_targets(lapic_ids: &[u32], bsp_lapic_id: u32) -> (targets: Vec<u32>)
    ensures
        targets@ == lapic_ids@.filter(|id: u32| id != bsp_lapic_id),
{
    let mut targets: Vec<u32> = Vec::new();
    let mut i: usize = 0;
    while i < lapic_ids.len()
        invariant
            0 <= i <= lapic_ids@.len(),
            targets@ == lapic_ids@.take(i as int).filter(|id: u32| id != bsp_lapic_id),
        decreases lapic_ids@.len() - i,
    {
        proof {
            assert(lapic_ids@.take(i + 1).drop_last() =~= lapic_ids@.take(i as int));
            lapic_ids@.take(i as int).lemma_filter_push(lapic_ids@[i as int], |id: u32| id != bsp_lapic_id);
            assert(lapic_ids@.take(i + 1) =~= lapic_ids@.take(i as int).push(lapic_ids@[i as int]));
        }
        if lapic_ids[i] != bsp_lapic_id {
            targets.push(lapic_ids[i]);
        }
        i = i + 1;
    }
    assert(lapic_ids@.take(lapic_ids@.len() as int) =~= lapic_ids@);
    targets
}

/// Reports how many cores were found.
pub fn report_cores(cpu_count: u32, log: &mut RingBuffer, time: RtcTime)
    requires
        old(log).wf(),
    ensures
        final(log).wf(),
        final(log).contents() == ok_logged(
            old(log).contents(),
            time,
            "CPU: Detected ".spec_bytes() + dec_digits(cpu_count as nat) + " CPU cores.".spec_bytes(),
        ),
{
    let mut m = empty_text();
    push_text(&mut m, "CPU: Detected ");
    push_dec(&mut m, cpu_count as u64);
    push_text(&mut m, " CPU cores.");
    log_ok(log, time, &m);
}

} // verus!
