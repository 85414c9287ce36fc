//! Processor identification decoded from CPUID results.
use vstd::prelude::*;
use vstd::string::StringSliceAdditionalSpecFns;

verus! {

/// The four registers a CPUID leaf returns.
#[derive(Clone, Copy, Debug)]
pub struct CpuidResult {
    pub eax: u32,
    pub ebx: u32,
    pub ecx: u32,
    pub edx: u32,
}

#[derive(Debug, Clone, Copy)]
pub struct CpuFeatures {
    pub sse: bool,
    pub sse2: bool,
    pub avx: bool,
    pub nx: bool,
    pub htt: bool,
}

#[derive(Debug, Clone, Copy)]
pub struct CpuInfo {
    pub vendor: &'static str,
    pub brand: [u8; 48],
    pub cores: u32,
    pub threads: u32,
    pub features: CpuFeatures,
    pub temp_support: bool,
}

/// Whether bit `b` of `x` is set.
pub open spec fn bit(x: u32, b: u32) -> bool {
    x & (1u32 << b) != 0
}

/// Byte `k` (0 = least significant) of `x`.
pub open spec fn byte_of(x: u32, k: u32) -> u8 {
    ((x >> (8 * k)) & 0xFF) as u8
}

/// The 48-byte brand string held by the three brand leaves: each leaf gives
/// sixteen bytes, from EAX, EBX, ECX and EDX in turn, least significant
/// byte first.
pub open spec fn brand_byte(leaves: Seq<CpuidResult>, i: int) -> u8 {
    let leaf = leaves[i / 16];
    let r = (i % 16) / 4;
    let k = (i % 4) as u32;
    if r == 0 {
        byte_of(leaf.eax, k)
    } else if r == 1 {
        byte_of(leaf.ebx, k)
    } else if r == 2 {
        byte_of(leaf.ecx, k)
    } else {
        byte_of(leaf.edx, k)
    }
}

/// The vendor name for the vendor words of leaf 0 (EBX, EDX, ECX).
pub open spec fn vendor_name(leaf0: CpuidResult) -> Seq<u8> {
    if leaf0.ebx == 0x756e6547 && leaf0.edx == 0x49656e69 && leaf0.ecx == 0x6c65746e {
        "GenuineIntel".spec_bytes()
    } else if leaf0.ebx == 0x68747541 && leaf0.edx == 0x69746e65 && leaf0.ecx == 0x444d4163 {
        "AuthenticAMD".spec_bytes()
    } else {
        "Unknown".spec_bytes()
    }
}

pub fn le_bytes(x: u32) -> (b: [u8; 4])
    ensures
        b@ == seq![byte_of(x, 0), byte_of(x, 1), byte_of(x, 2), byte_of(x, 3)],
{
    let b0 = (x & 0xFF) as u8;
    let b1 = ((x >> 8u32) & 0xFF) as u8;
    let b2 = ((x >> 16u32) & 0xFF) as u8;
    let b3 = ((x >> 24u32) & 0xFF) as u8;
    assert(x >> (8 * 0u32) == x) by (bit_vector);
    let b = [b0, b1, b2, b3];
    assert(b@ =~= seq![byte_of(x, 0), byte_of(x, 1), byte_of(x, 2), byte_of(x, 3)]);
    b
}

/// The brand string bytes of the three brand leaves.
pub fn brand_from_leaves(brand_leaves: [CpuidResult; 3]) -> (brand: [u8; 48])
    ensures
        forall|i: int| 0 <= i < 48 ==> #[trigger] brand@[i] == brand_byte(brand_leaves@, i),
{
    let mut brand = [0u8; 48];
    let mut i: usize = 0;
    while i < 3
        invariant
            0 <= i <= 3,
            forall|j: int| 0 <= j < 16 * i ==> #[trigger] brand@[j] == brand_byte(brand_leaves@, j),
        decreases 3 - i,
    {
        let leaf = brand_leaves[i];
        let a = le_bytes(leaf.eax);
        let b = le_bytes(leaf.ebx);
        let c = le_bytes(leaf.ecx);
        let d = le_bytes(leaf.edx);
        let offset = i * 16;
        let mut k: usize = 0;
        while k < 4
            invariant
                0 <= k <= 4,
                i < 3,
                offset == i * 16,
                leaf == brand_leaves@[i as int],
                a@ == seq![byte_of(leaf.eax, 0), byte_of(leaf.eax, 1), byte_of(leaf.eax, 2), byte_of(leaf.eax, 3)],
                b@ == seq![byte_of(leaf.ebx, 0), byte_of(leaf.ebx, 1), byte_of(leaf.ebx, 2), byte_of(leaf.ebx, 3)],
                c@ == seq![byte_of(leaf.ecx, 0), byte_of(leaf.ecx, 1), byte_of(leaf.ecx, 2), byte_of(leaf.ecx, 3)],
                d@ == seq![byte_of(leaf.edx, 0), byte_of(leaf.edx, 1), byte_of(leaf.edx, 2), byte_of(leaf.edx, 3)],
                forall|j: int| 0 <= j < 16 * i ==> #[trigger] brand@[j] == brand_byte(brand_leaves@, j),
                forall|j: int| 16 * i <= j < 16 * i + 16 && (j % 4) < k ==> #[trigger] brand@[j] == brand_byte(brand_leaves@, j),
            decreases 4 - k,
        {
            brand[offset + k] = a[k];
            brand[offset + 4 + k] = b[k];
            brand[offset + 8 + k] = c[k];
            brand[offset + 12 + k] = d[k];
            k = k + 1;
        }
        i = i + 1;
    }
    brand
}

/// Decodes the processor description from the CPUID leaves it reads: leaf 0
/// (vendor), 0x80000002 to 0x80000004 (brand), 1 (logical processors and
/// features), 0x80000008 (AMD core count), 4 sub-leaf 0 (Intel core count),
/// 0x80000001 (extended features) and 6 (thermal sensor).
pub fn get_cpu_info(
    leaf0: CpuidResult,
    brand_leaves: [CpuidResult; 3],
    leaf1: CpuidResult,
    amd_leaf: CpuidResult,
    intel_leaf: CpuidResult,
    ext_leaf: CpuidResult,
    thermal_leaf: CpuidResult,
) -> (info: CpuInfo)
    ensures
        info.vendor.spec_bytes() == vendor_name(leaf0),
        forall|i: int| 0 <= i < 48 ==> #[trigger] info.brand@[i] == brand_byte(brand_leaves@, i),
        info.threads == (leaf1.ebx >> 16u32) & 0xFF,
        info.cores == if vendor_name(leaf0) == "AuthenticAMD".spec_bytes() {
            (amd_leaf.ecx & 0xFF) + 1
        } else if vendor_name(leaf0) == "GenuineIntel".spec_bytes() {
            ((intel_leaf.eax >> 26u32) & 0x3F) + 1
        } else {
            1
        },
        info.features.sse == bit(leaf1.edx, 25),
        info.features.sse2 == bit(leaf1.edx, 26),
        info.features.avx == bit(leaf1.ecx, 28),
        info.features.htt == bit(leaf1.edx, 28),
        info.features.nx == bit(ext_leaf.edx, 20),
        info.temp_support == bit(thermal_leaf.eax, 0),
{
    let is_intel = leaf0.ebx == 0x756e6547 && leaf0.edx == 0x49656e69 && leaf0.ecx == 0x6c65746e;
    let is_amd = leaf0.ebx == 0x68747541 && leaf0.edx == 0x69746e65 && leaf0.ecx == 0x444d4163;
    let vendor: &'static str = if is_intel { "GenuineIntel" } else if is_amd { "AuthenticAMD" } else { "Unknown" };
    proof {
        reveal_strlit("GenuineIntel");
        reveal_strlit("AuthenticAMD");
        reveal_strlit("Unknown");
        assert("GenuineIntel"@ != "AuthenticAMD"@) by {
            assert("GenuineIntel"@[0] != "AuthenticAMD"@[0]);
        }
        assert("GenuineIntel".spec_bytes() != "AuthenticAMD".spec_bytes()) by {
            vstd::utf8::encode_utf8_decode_utf8("GenuineIntel"@);
            vstd::utf8::encode_utf8_decode_utf8("AuthenticAMD"@);
        }
        assert("Unknown".spec_bytes() != "AuthenticAMD".spec_bytes()) by {
            assert("Unknown"@[0] != "AuthenticAMD"@[0]);
            vstd::utf8::encode_utf8_decode_utf8("Unknown"@);
            vstd::utf8::encode_utf8_decode_utf8("AuthenticAMD"@);
        }
        assert("Unknown".spec_bytes() != "GenuineIntel".spec_bytes()) by {
            assert("Unknown"@[0] != "GenuineIntel"@[0]);
            vstd::utf8::encode_utf8_decode_utf8("Unknown"@);
            vstd::utf8::encode_utf8_decode_utf8("GenuineIntel"@);
        }
    }
    let brand = brand_from_leaves(brand_leaves);
    let logical = (leaf1.ebx >> 16u32) & 0xFF;
    let amd_ecx = amd_leaf.ecx;
    let intel_eax = intel_leaf.eax;
    assert(amd_ecx & 0xFF <= 0xFF) by (bit_vector);
    assert((intel_eax >> 26u32) & 0x3F <= 0x3F) by (bit_vector);
    let (cores, threads) = if is_amd {
        let c = (amd_leaf.ecx & 0xFF) + 1;
        (c, logical)
    } else if is_intel {
        let c = ((intel_leaf.eax >> 26u32) & 0x3F) + 1;
        (c, logical)
    } else {
        (1u32, logical)
    };
    let features = CpuFeatures {
        sse: (leaf1.edx & (1u32 << 25u32)) != 0,
        sse2: (leaf1.edx & (1u32 << 26u32)) != 0,
        avx: (leaf1.ecx & (1u32 << 28u32)) != 0,
        htt: (leaf1.edx & (1u32 << 28u32)) != 0,
        nx: (ext_leaf.edx & (1u32 << 20u32)) != 0,
    };
    let t = thermal_leaf.eax;
    let temp_support = (t & 0x1) != 0;
    assert(t & (1u32 << 0u32) == t & 0x1) by (bit_vector);
    CpuInfo { vendor, brand, cores, threads, features, temp_support }
}

} // verus!
