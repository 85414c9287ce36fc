use deepx::cpu::CpuInfo as ArchCpuInfo;
use deepx::cpuinfo::{brand_from_leaves, get_cpu_info, le_bytes, CpuidResult};
use deepx::gdt::{build_gdt, gdt_limit, KERNEL_CODE, KERNEL_DATA, USER_CODE, USER_DATA};
use deepx::logger::RtcTime;
use deepx::per_cpu::{ap_targets, bsp_apic_id, plan_cpus, report_cores, PerCpu};
use deepx::pic::{ChainedPics, PortWrite, MASTER_COMMAND, MASTER_DATA, PIC_EOI, SLAVE_COMMAND, SLAVE_DATA};
use deepx::ring_buffer::{RingBuffer, LOG_BUFFER_SIZE};
use deepx::user_mode::{image_pages, PageCopy, USER_BASE};

fn contents(log: &RingBuffer) -> String {
    let mut out = vec![0u8; LOG_BUFFER_SIZE];
    let n = log.read_all(&mut out);
    out.truncate(n);
    String::from_utf8(out).unwrap()
}

fn regs(s: &[u8; 16]) -> CpuidResult {
    let w = |i: usize| u32::from_le_bytes([s[i], s[i + 1], s[i + 2], s[i + 3]]);
    CpuidResult { eax: w(0), ebx: w(4), ecx: w(8), edx: w(12) }
}

fn intel_leaf0() -> CpuidResult {
    CpuidResult { eax: 0x16, ebx: 0x756e6547, ecx: 0x6c65746e, edx: 0x49656e69 }
}

fn brand_leaves() -> [CpuidResult; 3] {
    [regs(b"  Intel(R) Core("), regs(b"TM) i7 CPU      "), regs(b"            \0\0\0\0")]
}

#[test]
fn gdt_layout_and_tss_descriptor() {
    let addr: u64 = 0xFFFF_8000_1234_5678;
    let limit: u64 = 0x67;
    let g = build_gdt(addr, limit);
    assert_eq!(g[0], 0);
    assert_eq!(g[1], KERNEL_CODE);
    assert_eq!(g[2], KERNEL_DATA);
    assert_eq!(g[3], USER_CODE);
    assert_eq!(g[4], USER_DATA);
    assert_eq!(g[7], 0);
    let low = g[5];
    let back = ((low >> 16) & 0xFF_FFFF) | (((low >> 56) & 0xFF) << 24) | (g[6] << 32);
    assert_eq!(back, addr);
    assert_eq!(low & 0xFFFF, limit);
    assert_eq!((low >> 40) & 0xFF, 0x89);
    assert_eq!(gdt_limit(), 63);
}

#[test]
fn pic_programming() {
    let p = ChainedPics::new(32, 40);
    let init = p.initialize();
    assert_eq!(init.len(), 10);
    assert_eq!(init[0], PortWrite { port: MASTER_COMMAND, value: 0x11 });
    assert_eq!(init[2], PortWrite { port: MASTER_DATA, value: 32 });
    assert_eq!(init[3], PortWrite { port: SLAVE_DATA, value: 40 });
    assert_eq!(init[9], PortWrite { port: SLAVE_DATA, value: 0xFF });
    assert_eq!(p.mask_port(3), MASTER_DATA);
    assert_eq!(p.mask_port(12), SLAVE_DATA);
    assert_eq!(p.enable_irq(1, 0xFF), PortWrite { port: MASTER_DATA, value: 0xFD });
    assert_eq!(p.disable_irq(9, 0x00), PortWrite { port: SLAVE_DATA, value: 0x02 });
    let masked = p.disable_irq(4, 0xA5).value;
    assert_eq!(p.enable_irq(4, masked).value, 0xA5);
    assert_eq!(
        p.notify_end_of_interrupt(44),
        vec![PortWrite { port: SLAVE_COMMAND, value: PIC_EOI }, PortWrite { port: MASTER_COMMAND, value: PIC_EOI }]
    );
    assert_eq!(p.notify_end_of_interrupt(33), vec![PortWrite { port: MASTER_COMMAND, value: PIC_EOI }]);
}

#[test]
fn cpu_planning() {
    let leaf1 = CpuidResult { eax: 0, ebx: 0x0300_0000, ecx: 0, edx: 0 };
    assert_eq!(bsp_apic_id(leaf1), 3);
    let cpus: Vec<PerCpu> = plan_cpus(&[3, 0, 1, 2], 3, 3);
    assert_eq!(cpus.len(), 3);
    assert!(cpus[0].is_bsp);
    assert_eq!(cpus[1].apic_id, 0);
    assert!(!cpus[1].is_bsp);
    assert!(cpus[2].ready_queue.is_empty());
    assert_eq!(ap_targets(&[0, 1, 2, 3], 1), vec![0, 2, 3]);
    assert_eq!(ap_targets(&[], 0), Vec::<u32>::new());
    let mut log = RingBuffer::new();
    report_cores(4, &mut log, RtcTime { hour: 0, minute: 0, second: 0 });
    assert_eq!(contents(&log), "^&8[00:00:00] ^&7[^&2  OK  ^&7] ^&7CPU: Detected 4 CPU cores.\n");
}

#[test]
fn user_image_pages() {
    let pages = image_pages(5000);
    assert_eq!(
        pages,
        vec![
            PageCopy { virt: USER_BASE, offset: 0, len: 4096 },
            PageCopy { virt: USER_BASE + 4096, offset: 4096, len: 904 },
        ]
    );
    assert!(image_pages(0).is_empty());
    assert_eq!(image_pages(4096).len(), 1);
}

#[test]
fn cpuid_decoding() {
    assert_eq!(le_bytes(0x4433_2211), [0x11, 0x22, 0x33, 0x44]);
    let brand = brand_from_leaves(brand_leaves());
    assert_eq!(&brand[..16], b"  Intel(R) Core(");
    let leaf1 = CpuidResult { eax: 0, ebx: 0x0008_0000, ecx: 1 << 28, edx: (1 << 25) | (1 << 26) };
    let intel = CpuidResult { eax: 3 << 26, ebx: 0, ecx: 0, edx: 0 };
    let zero = CpuidResult { eax: 0, ebx: 0, ecx: 0, edx: 0 };
    let ext = CpuidResult { eax: 0, ebx: 0, ecx: 0, edx: 1 << 20 };
    let info = get_cpu_info(intel_leaf0(), brand_leaves(), leaf1, zero, intel, ext, CpuidResult { eax: 1, ..zero });
    assert_eq!(info.vendor, "GenuineIntel");
    assert_eq!(info.cores, 4);
    assert_eq!(info.threads, 8);
    assert!(info.features.sse && info.features.sse2 && info.features.avx && info.features.nx);
    assert!(!info.features.htt);
    assert!(info.temp_support);
    let amd0 = CpuidResult { eax: 0, ebx: 0x68747541, ecx: 0x444d4163, edx: 0x69746e65 };
    let amd_leaf = CpuidResult { eax: 0, ebx: 0, ecx: 7, edx: 0 };
    let amd = get_cpu_info(amd0, brand_leaves(), zero, amd_leaf, zero, zero, zero);
    assert_eq!(amd.vendor, "AuthenticAMD");
    assert_eq!(amd.cores, 8);
    let other = get_cpu_info(zero, brand_leaves(), zero, amd_leaf, intel, zero, zero);
    assert_eq!(other.vendor, "Unknown");
    assert_eq!(other.cores, 1);
}

#[test]
fn arch_cpu_strings() {
    let ext = CpuidResult { eax: 0x8000_0008, ebx: 0, ecx: 0, edx: 0 };
    let c = ArchCpuInfo::new(intel_leaf0(), ext, brand_leaves()).expect("info");
    assert_eq!(c.vendor_as_str(), "GenuineIntel");
    assert_eq!(c.brand_as_str(), "Intel(R) Core(TM) i7 CPU");
    let old = CpuidResult { eax: 0x8000_0001, ebx: 0, ecx: 0, edx: 0 };
    let c = ArchCpuInfo::new(intel_leaf0(), old, brand_leaves()).expect("info");
    assert_eq!(c.brand_as_str(), "");
}
