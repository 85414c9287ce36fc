//! Byte-level text helpers: decimal and hexadecimal digits, padding.
use vstd::prelude::*;
use vstd::utf8::{valid_utf8, decode_utf8, encode_utf8, partial_valid_utf8_extend_ascii_block, is_leading_byte_width_1};
use vstd::string::StringSliceAdditionalSpecFns;
use vstd::string::StringExecFns;
use vstd::string::StrSliceExecFns;

verus! {

/// The ASCII code of the decimal digit `d`.
pub open spec fn digit_byte(d: nat) -> u8 {
    (48 + d) as u8
}

/// Decimal digits of `n`, most significant first, without leading zeros
/// (the number 0 is the single digit `0`).
pub open spec fn dec_digits(n: nat) -> Seq<u8>
    decreases n,
{
    if n < 10 {
        seq![digit_byte(n)]
    } else {
        dec_digits(n / 10).push(digit_byte(n % 10))
    }
}

/// Decimal digits of `n` with no digit at all for zero.
pub open spec fn dec_tail(n: nat) -> Seq<u8> {
    if n == 0 {
        Seq::empty()
    } else {
        dec_digits(n)
    }
}

pub proof fn lemma_dec_digits_step(n: nat)
    requires
        n > 0,
    ensures
        dec_digits(n) == dec_tail(n / 10).push(digit_byte(n % 10)),
{
    if n < 10 {
        assert(dec_digits(n) =~= Seq::<u8>::empty().push(digit_byte(n % 10)));
    }
}

/// Every decimal digit is an ASCII digit and there is at least one.
pub proof fn lemma_dec_digits_are_digits(n: nat)
    ensures
        dec_digits(n).len() >= 1,
        forall|i: int| 0 <= i < dec_digits(n).len() ==> 48 <= #[trigger] dec_digits(n)[i] <= 57,
    decreases n,
{
    if n >= 10 {
        lemma_dec_digits_are_digits(n / 10);
    }
}

/// Ten to the power `k`.
pub open spec fn ten_pow(k: nat) -> nat
    decreases k,
{
    if k == 0 {
        1
    } else {
        10 * ten_pow((k - 1) as nat)
    }
}

/// A number below ten to the `k` has at most `k` decimal digits.
pub proof fn lemma_dec_digits_len(n: nat, k: nat)
    requires
        n < ten_pow(k),
        k >= 1,
    ensures
        dec_digits(n).len() <= k,
    decreases k,
{
    if n >= 10 {
        let p = ten_pow((k - 1) as nat);
        assert(k >= 2) by {
            if k == 1 {
                assert(ten_pow(0) == 1);
            }
        }
        assert(n / 10 < p) by (nonlinear_arith)
            requires
                n < 10 * p,
        ;
        lemma_dec_digits_len(n / 10, (k - 1) as nat);
    }
}

/// A 64-bit number has at most 20 decimal digits.
pub proof fn lemma_dec_digits_u64(n: u64)
    ensures
        dec_digits(n as nat).len() <= 20,
{
    assert(ten_pow(20) == 100000000000000000000) by {
        reveal_with_fuel(ten_pow, 21);
    }
    lemma_dec_digits_len(n as nat, 20);
}

/// The decimal digits of `n`.
pub fn u64_decimal(n: u64) -> (v: Vec<u8>)
    ensures
        v@ == dec_digits(n as nat),
{
    if n == 0 {
        let mut v: Vec<u8> = Vec::new();
        v.push(48u8);
        assert(v@ =~= dec_digits(0));
        return v;
    }
    let mut v: Vec<u8> = Vec::new();
    let mut m: u64 = n;
    while m > 0
        invariant
            dec_digits(n as nat) == dec_tail(m as nat) + v@,
        decreases m,
    {
        let d: u8 = (m % 10) as u8;
        let ghost v0 = v@;
        proof {
            lemma_dec_digits_step(m as nat);
        }
        v.insert(0, 48u8 + d);
        assert(v@ =~= seq![digit_byte((m % 10) as nat)] + v0);
        assert(dec_tail((m / 10) as nat) + v@ =~= dec_tail(m as nat) + v0);
        m = m / 10;
    }
    assert(v@ =~= dec_digits(n as nat));
    v
}


/// The ASCII code of the upper-case hexadecimal digit `d` (`d < 16`).
pub open spec fn hex_byte(d: nat) -> u8 {
    if d < 10 {
        (48 + d) as u8
    } else {
        (55 + d) as u8
    }
}

/// Upper-case hexadecimal digits of `n`, most significant first, without
/// leading zeros (the number 0 is the single digit `0`).
pub open spec fn hex_digits(n: nat) -> Seq<u8>
    decreases n,
{
    if n < 16 {
        seq![hex_byte(n)]
    } else {
        hex_digits(n / 16).push(hex_byte(n % 16))
    }
}

/// Hexadecimal digits of `n` with no digit at all for zero.
pub open spec fn hex_tail(n: nat) -> Seq<u8> {
    if n == 0 {
        Seq::empty()
    } else {
        hex_digits(n)
    }
}

pub proof fn lemma_hex_digits_step(n: nat)
    requires
        n > 0,
    ensures
        hex_digits(n) == hex_tail(n / 16).push(hex_byte(n % 16)),
{
    if n < 16 {
        assert(hex_digits(n) =~= Seq::<u8>::empty().push(hex_byte(n % 16)));
    }
}

/// Every hexadecimal digit is an ASCII character and there is at least one.
pub proof fn lemma_hex_digits_ascii(n: nat)
    ensures
        hex_digits(n).len() >= 1,
        forall|i: int| 0 <= i < hex_digits(n).len() ==> #[trigger] hex_digits(n)[i] < 128,
    decreases n,
{
    if n >= 16 {
        lemma_hex_digits_ascii(n / 16);
    }
}

/// The upper-case hexadecimal digit for `d`.
pub fn hex_char(d: u8) -> (b: u8)
    requires
        d < 16,
    ensures
        b == hex_byte(d as nat),
{
    if d < 10 {
        48 + d
    } else {
        55 + d
    }
}

/// The upper-case hexadecimal digits of `n`.
pub fn u64_hexadecimal(n: u64) -> (v: Vec<u8>)
    ensures
        v@ == hex_digits(n as nat),
{
    if n == 0 {
        let mut v: Vec<u8> = Vec::new();
        v.push(48u8);
        assert(v@ =~= hex_digits(0));
        return v;
    }
    let mut v: Vec<u8> = Vec::new();
    let mut m: u64 = n;
    while m > 0
        invariant
            hex_digits(n as nat) == hex_tail(m as nat) + v@,
        decreases m,
    {
        let d: u8 = (m % 16) as u8;
        let ghost v0 = v@;
        proof {
            lemma_hex_digits_step(m as nat);
        }
        let c = hex_char(d);
        v.insert(0, c);
        assert(v@ =~= seq![hex_byte((m % 16) as nat)] + v0);
        assert(hex_tail((m / 16) as nat) + v@ =~= hex_tail(m as nat) + v0);
        m = m / 16;
    }
    assert(v@ =~= hex_digits(n as nat));
    v
}

/// `s` padded on the left with `fill` up to `width` bytes.
pub open spec fn pad_left(s: Seq<u8>, width: nat, fill: u8) -> Seq<u8> {
    if s.len() >= width {
        s
    } else {
        Seq::new((width - s.len()) as nat, |i: int| fill) + s
    }
}

/// `s` padded on the right with spaces up to `width` bytes.
pub open spec fn pad_right(s: Seq<u8>, width: nat) -> Seq<u8> {
    if s.len() >= width {
        s
    } else {
        s + Seq::new((width - s.len()) as nat, |i: int| 32u8)
    }
}

/// Appends `s` to `out`, padded on the left with `fill` up to `width`.
pub fn push_padded_left(out: &mut Vec<u8>, s: &Vec<u8>, width: usize, fill: u8)
    ensures
        final(out)@ == old(out)@ + pad_left(s@, width as nat, fill),
{
    let ghost o = out@;
    if s.len() < width {
        let mut k: usize = s.len();
        while k < width
            invariant
                s@.len() <= k <= width,
                out@ == o + Seq::new((k - s@.len()) as nat, |i: int| fill),
            decreases width - k,
        {
            out.push(fill);
            assert(out@ =~= o + Seq::new((k + 1 - s@.len()) as nat, |i: int| fill));
            k = k + 1;
        }
    }
    let ghost mid = out@;
    push_all(out, s);
    assert(out@ =~= o + pad_left(s@, width as nat, fill));
}

/// Appends `s` to `out`, padded on the right with spaces up to `width`.
pub fn push_padded_right(out: &mut Vec<u8>, s: &Vec<u8>, width: usize)
    ensures
        final(out)@ == old(out)@ + pad_right(s@, width as nat),
{
    let ghost o = out@;
    push_all(out, s);
    if s.len() < width {
        let mut k: usize = s.len();
        while k < width
            invariant
                s@.len() <= k <= width,
                out@ == o + s@ + Seq::new((k - s@.len()) as nat, |i: int| 32u8),
            decreases width - k,
        {
            out.push(32u8);
            assert(out@ =~= o + s@ + Seq::new((k + 1 - s@.len()) as nat, |i: int| 32u8));
            k = k + 1;
        }
    }
    assert(out@ =~= o + pad_right(s@, width as nat));
}

/// Appends all of `s` to `out`.
pub fn push_all(out: &mut Vec<u8>, s: &Vec<u8>)
    ensures
        final(out)@ == old(out)@ + s@,
{
    let ghost o = out@;
    let mut i: usize = 0;
    while i < s.len()
        invariant
            0 <= i <= s@.len(),
            out@ == o + s@.subrange(0, i as int),
        decreases s@.len() - i,
    {
        out.push(s[i]);
        assert(out@ =~= o + s@.subrange(0, i + 1));
        i = i + 1;
    }
    assert(s@.subrange(0, s@.len() as int) =~= s@);
}

/// Concatenation regroups: `(a + b) + c` is `a + (b + c)`.
pub proof fn lemma_add_assoc(a: Seq<u8>, b: Seq<u8>, c: Seq<u8>)
    ensures
        (a + b) + c == a + (b + c),
{
    assert((a + b) + c =~= a + (b + c));
}

/// Appends the bytes of `s` to `out`.
pub fn push_str_bytes(out: &mut Vec<u8>, s: &str)
    ensures
        final(out)@ == old(out)@ + s.spec_bytes(),
{
    let b = s.as_bytes();
    let ghost o = out@;
    let mut i: usize = 0;
    while i < b.len()
        invariant
            0 <= i <= b@.len(),
            b@ == s.spec_bytes(),
            out@ == o + b@.subrange(0, i as int),
        decreases b@.len() - i,
    {
        out.push(b[i]);
        assert(out@ =~= o + b@.subrange(0, i + 1));
        i = i + 1;
    }
    assert(b@.subrange(0, b@.len() as int) =~= b@);
}

/// Every byte of `s` is ASCII.
pub open spec fn all_ascii(s: Seq<u8>) -> bool {
    forall|i: int| 0 <= i < s.len() ==> #[trigger] s[i] < 128
}

/// ASCII bytes are valid UTF-8.
pub proof fn lemma_ascii_valid_utf8(s: Seq<u8>)
    requires
        all_ascii(s),
    ensures
        valid_utf8(s),
{
    assert forall|i: int| 0 <= 0 <= i < s.len() <= s.len() implies #[trigger] is_leading_byte_width_1(s[i]) by {
        assert(s[i] < 128);
    }
    assert(valid_utf8(s.subrange(0, 0)));
    partial_valid_utf8_extend_ascii_block(s, 0, s.len() as int);
    assert(s.subrange(0, s.len() as int) =~= s);
}

/// The string whose UTF-8 bytes are the ASCII bytes `b`.
pub fn ascii_string(b: &Vec<u8>) -> (s: String)
    requires
        all_ascii(b@),
    ensures
        s@ == decode_utf8(b@),
        encode_utf8(s@) == b@,
{
    proof {
        lemma_ascii_valid_utf8(b@);
    }
    match str_from_utf8(b.as_slice()) {
        Some(st) => {
            let s = String::from_str(st);
            proof {
                vstd::utf8::encode_utf8_decode_utf8(st@);
            }
            s
        },
        None => {
            proof {
                assert(false);
            }
            String::new()
        },
    }
}

/// `core::str::from_utf8`: the bytes read as a string slice when they are
/// valid UTF-8, else nothing. Its contract states the documented behaviour:
/// success exactly on valid UTF-8, and then the string's bytes are the input.
#[verifier::external_body]
pub(crate) fn str_from_utf8(b: &[u8]) -> (r: Option<&str>)
    ensures
        r is Some <==> valid_utf8(b@),
        r is Some ==> r->0.spec_bytes() == b@,
{
    core::str::from_utf8(b).ok()
}

/// The lower-case form of an ASCII upper-case hexadecimal letter.
pub open spec fn to_lower(b: u8) -> u8 {
    if 65 <= b <= 90 {
        (b + 32) as u8
    } else {
        b
    }
}

/// Lower-case hexadecimal digits of `n`.
pub open spec fn lower_hex_digits(n: nat) -> Seq<u8> {
    hex_digits(n).map_values(|b: u8| to_lower(b))
}

pub proof fn lemma_lower_hex_ascii(n: nat)
    ensures
        all_ascii(lower_hex_digits(n)),
        lower_hex_digits(n).len() == hex_digits(n).len(),
{
    lemma_hex_digits_ascii(n);
}

/// The lower-case hexadecimal digits of `n`.
pub fn u64_lower_hexadecimal(n: u64) -> (v: Vec<u8>)
    ensures
        v@ == lower_hex_digits(n as nat),
{
    let h = u64_hexadecimal(n);
    let mut v: Vec<u8> = Vec::new();
    let mut i: usize = 0;
    proof {
        lemma_hex_digits_ascii(n as nat);
    }
    while i < h.len()
        invariant
            0 <= i <= h@.len(),
            h@ == hex_digits(n as nat),
            all_ascii(h@),
            v@ == h@.subrange(0, i as int).map_values(|b: u8| to_lower(b)),
        decreases h@.len() - i,
    {
        let b = h[i];
        let l = if 65 <= b && b <= 90 { b + 32 } else { b };
        v.push(l);
        assert(v@ =~= h@.subrange(0, i + 1).map_values(|b: u8| to_lower(b)));
        i = i + 1;
    }
    assert(h@.subrange(0, h@.len() as int) =~= h@);
    v
}

/// The UTF-8 bytes of a string are valid UTF-8.
pub proof fn lemma_str_bytes_valid(s: &str)
    ensures
        valid_utf8(s.spec_bytes()),
{
    vstd::utf8::encode_utf8_valid_utf8(s@);
}

/// Valid UTF-8 bytes read as a string slice.
pub fn bytes_as_str(v: &[u8]) -> (r: &str)
    requires
        valid_utf8(v@),
    ensures
        r.spec_bytes() == v@,
        r@ == decode_utf8(v@),
{
    match str_from_utf8(v) {
        Some(t) => {
            proof {
                vstd::utf8::encode_utf8_decode_utf8(t@);
            }
            t
        },
        None => {
            proof {
                assert(false);
            }
            ""
        },
    }
}

/// `s`, the bytes of a text of `nchars` characters, padded on the right with
/// spaces up to `width` characters.
pub open spec fn pad_right_chars(s: Seq<u8>, nchars: nat, width: nat) -> Seq<u8> {
    if nchars >= width {
        s
    } else {
        s + Seq::new((width - nchars) as nat, |i: int| 32u8)
    }
}

/// Appends `s` padded on the right with spaces up to `width` characters.
pub fn push_str_padded_right(out: &mut Vec<u8>, s: &str, width: usize)
    ensures
        final(out)@ == old(out)@ + pad_right_chars(s.spec_bytes(), s@.len(), width as nat),
{
    let ghost o = out@;
    push_str_bytes(out, s);
    let n = s.unicode_len();
    if n < width {
        let mut k: usize = n;
        while k < width
            invariant
                n <= k <= width,
                out@ == o + s.spec_bytes() + Seq::new((k - n) as nat, |i: int| 32u8),
            decreases width - k,
        {
            out.push(32u8);
            assert(out@ =~= o + s.spec_bytes() + Seq::new((k + 1 - n) as nat, |i: int| 32u8));
            k = k + 1;
        }
    }
    assert(out@ =~= o + pad_right_chars(s.spec_bytes(), s@.len(), width as nat));
}

} // verus!
