//! The processor's vendor and brand strings as CPUID reports them.
use vstd::prelude::*;
use vstd::utf8::{valid_utf8, decode_utf8};
use vstd::slice::slice_subrange;
use crate::cpuinfo::{CpuidResult, byte_of, brand_byte, le_bytes, brand_from_leaves};
use crate::strs::{trim, trimmed};
use crate::text::bytes_as_str;

verus! {

/// The raw vendor and brand strings.
pub struct CpuInfo {
    pub brand: [u8; 48],
    pub vendor: [u8; 12],
}

/// The 12 vendor bytes of leaf 0: EBX, EDX, ECX, least significant byte
/// first.
pub open spec fn vendor_byte(leaf0: CpuidResult, i: int) -> u8 {
    if i < 4 {
        byte_of(leaf0.ebx, i as u32)
    } else if i < 8 {
        byte_of(leaf0.edx, (i - 4) as u32)
    } else {
        byte_of(leaf0.ecx, (i - 8) as u32)
    }
}

/// Where the brand string ends: at its first zero byte from `i` on, else
/// at its end.
pub open spec fn first_zero(s: Seq<u8>, i: int) -> int
    decreases s.len() - i,
{
    if i >= s.len() {
        s.len() as int
    } else if s[i] == 0 {
        i
    } else {
        first_zero(s, i + 1)
    }
}

/// The length of the brand string: up to its first zero byte.
pub open spec fn brand_len(brand: Seq<u8>) -> int {
    first_zero(brand, 0)
}

proof fn lemma_first_zero(s: Seq<u8>, i: int, n: int)
    requires
        0 <= i <= n <= s.len(),
        n == s.len() || s[n] == 0,
        forall|j: int| i <= j < n ==> s[j] != 0,
    ensures
        first_zero(s, i) == n,
    decreases n - i,
{
    if i < n {
        lemma_first_zero(s, i + 1, n);
    }
}

impl CpuInfo {
    /// Reads the vendor from leaf 0 and, when the highest extended leaf
    /// (EAX of leaf 0x80000000) reaches 0x80000004, the brand from leaves
    /// 0x80000002 to 0x80000004; otherwise the brand is all zero.
    pub fn new(leaf0: CpuidResult, ext_max: CpuidResult, brand_leaves: [CpuidResult; 3]) -> (r: Option<Self>)
        ensures
            r is Some,
            forall|i: int| 0 <= i < 12 ==> #[trigger] r->0.vendor@[i] == vendor_byte(leaf0, i),
            ext_max.eax < 0x80000004 ==> forall|i: int| 0 <= i < 48 ==> #[trigger] r->0.brand@[i] == 0,
            ext_max.eax >= 0x80000004 ==> forall|i: int| 0 <= i < 48 ==> #[trigger] r->0.brand@[i] == brand_byte(
                brand_leaves@,
                i,
            ),
    {
        let b = le_bytes(leaf0.ebx);
        let d = le_bytes(leaf0.edx);
        let c = le_bytes(leaf0.ecx);
        let vendor = [b[0], b[1], b[2], b[3], d[0], d[1], d[2], d[3], c[0], c[1], c[2], c[3]];
        if ext_max.eax < 0x80000004 {
            return Some(CpuInfo { brand: [0u8; 48], vendor });
        }
        Some(CpuInfo { brand: brand_from_leaves(brand_leaves), vendor })
    }

    /// The brand string up to its first zero byte, without surrounding
    /// white space. The bytes must be UTF-8.
    pub fn brand_as_str(&self) -> (s: &str)
        requires
            valid_utf8(self.brand@.take(brand_len(self.brand@))),
        ensures
            s@ == trimmed(decode_utf8(self.brand@.take(brand_len(self.brand@)))),
    {
        let mut len: usize = 0;
        while len < 48 && self.brand[len] != 0
            invariant
                0 <= len <= 48,
                forall|j: int| 0 <= j < len ==> self.brand@[j] != 0,
            decreases 48 - len,
        {
            len = len + 1;
        }
        proof {
            lemma_first_zero(self.brand@, 0, len as int);
        }
        let bytes = slice_subrange(self.brand.as_slice(), 0, len);
        assert(bytes@ =~= self.brand@.take(len as int));
        trim(bytes_as_str(bytes))
    }

    /// The vendor string without surrounding white space. The bytes must be
    /// UTF-8.
    pub fn vendor_as_str(&self) -> (s: &str)
        requires
            valid_utf8(self.vendor@),
        ensures
            s@ == trimmed(decode_utf8(self.vendor@)),
    {
        trim(bytes_as_str(self.vendor.as_slice()))
    }
}

} // verus!
