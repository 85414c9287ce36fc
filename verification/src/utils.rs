//! Number formatting without allocation: decimal and hexadecimal into a
//! caller's buffer, a byte as two hex digits, and human readable sizes.
use vstd::prelude::*;
use vstd::string::StringSliceAdditionalSpecFns;
use vstd::utf8::decode_utf8;
use crate::text::{dec_digits, dec_tail, hex_digits, hex_tail, hex_byte, digit_byte, hex_char,
    lemma_dec_digits_step, lemma_hex_digits_step, lemma_dec_digits_are_digits, lemma_hex_digits_ascii,
    lemma_ascii_valid_utf8, all_ascii, str_from_utf8, u64_decimal, push_str_bytes, push_all, ascii_string};
use crate::ring_buffer::last_n;

verus! {

/// The bytes that `u64_to_str` leaves at the end of a buffer of length `len`:
/// the decimal digits of `num`, keeping only the last `len` of them.
pub open spec fn dec_in_buffer(num: nat, len: nat) -> Seq<u8> {
    if num == 0 {
        seq![48u8]
    } else {
        last_n(dec_digits(num), len)
    }
}

/// The bytes that `u64_to_hex` leaves at the end of a buffer of length `len`.
pub open spec fn hex_in_buffer(num: nat, len: nat) -> Seq<u8> {
    if num == 0 {
        seq![48u8]
    } else {
        last_n(hex_digits(num), len)
    }
}

/// Writes the decimal digits of `num` at the end of `buf` (only the lowest
/// digits when `buf` is too short) and returns them as a string; zero is
/// written as `0` at the start of `buf`.
pub fn u64_to_str(num: u64, buf: &mut [u8]) -> (r: &str)
    requires
        num == 0 ==> old(buf)@.len() >= 1,
    ensures
        r.spec_bytes() == dec_in_buffer(num as nat, old(buf)@.len()),
        final(buf)@.len() == old(buf)@.len(),
        num == 0 ==> final(buf)@ == old(buf)@.update(0, 48u8),
        num > 0 ==> final(buf)@ == old(buf)@.subrange(0, old(buf)@.len() - r.spec_bytes().len())
            + r.spec_bytes(),
{
    if num == 0 {
        buf[0] = 48u8;
        let s: &[u8] = &buf[0..1];
        let ghost sv = s@;
        proof {
            assert(sv =~= seq![48u8]);
            lemma_ascii_valid_utf8(sv);
        }
        return match str_from_utf8(s) {
            Some(t) => t,
            None => {
                proof {
                    assert(false);
                }
                ""
            },
        };
    }
    let len = buf.len();
    let ghost b0 = buf@;
    let mut i: usize = len;
    let mut m: u64 = num;
    while m > 0 && i > 0
        invariant
            0 <= i <= len,
            len == buf@.len(),
            b0.len() == len,
            buf@.subrange(0, i as int) == b0.subrange(0, i as int),
            dec_digits(num as nat) == dec_tail(m as nat) + buf@.subrange(i as int, len as int),
        decreases i,
    {
        proof {
            lemma_dec_digits_step(m as nat);
        }
        let ghost tail0 = buf@.subrange(i as int, len as int);
        i = i - 1;
        buf[i] = (m % 10) as u8 + 48u8;
        assert(buf@.subrange(i as int, len as int) =~= seq![digit_byte((m % 10) as nat)] + tail0);
        assert(buf@.subrange(0, i as int) =~= b0.subrange(0, i as int));
        let ghost m0 = m;
        m = m / 10;
        assert(dec_tail(m as nat) + buf@.subrange(i as int, len as int) =~= dec_tail(m as nat).push(
            digit_byte((m0 % 10) as nat),
        ) + tail0);
    }
    let s: &[u8] = &buf[i..len];
    let ghost sv = s@;
    proof {
        lemma_dec_digits_are_digits(num as nat);
        let d = dec_digits(num as nat);
        if m == 0 {
            assert(sv =~= d);
        } else {
            assert(i == 0);
            assert(d.len() >= len);
            assert(sv =~= last_n(d, len as nat));
        }
        assert(all_ascii(sv));
        lemma_ascii_valid_utf8(sv);
        assert(buf@ =~= b0.subrange(0, len - sv.len()) + sv);
    }
    match str_from_utf8(s) {
        Some(t) => t,
        None => {
            proof {
                assert(false);
            }
            ""
        },
    }
}

/// Writes the upper-case hexadecimal digits of `num` at the end of `buf`
/// (only the lowest digits when `buf` is too short) and returns them as a
/// string; zero is written as `0` at the start of `buf`.
pub fn u64_to_hex(num: u64, buf: &mut [u8]) -> (r: &str)
    requires
        num == 0 ==> old(buf)@.len() >= 1,
    ensures
        r.spec_bytes() == hex_in_buffer(num as nat, old(buf)@.len()),
        final(buf)@.len() == old(buf)@.len(),
        num == 0 ==> final(buf)@ == old(buf)@.update(0, 48u8),
        num > 0 ==> final(buf)@ == old(buf)@.subrange(0, old(buf)@.len() - r.spec_bytes().len())
            + r.spec_bytes(),
{
    if num == 0 {
        buf[0] = 48u8;
        let s: &[u8] = &buf[0..1];
        let ghost sv = s@;
        proof {
            assert(sv =~= seq![48u8]);
            lemma_ascii_valid_utf8(sv);
        }
        return match str_from_utf8(s) {
            Some(t) => t,
            None => {
                proof {
                    assert(false);
                }
                ""
            },
        };
    }
    let len = buf.len();
    let ghost b0 = buf@;
    let mut i: usize = len;
    let mut m: u64 = num;
    while m > 0 && i > 0
        invariant
            0 <= i <= len,
            len == buf@.len(),
            b0.len() == len,
            buf@.subrange(0, i as int) == b0.subrange(0, i as int),
            hex_digits(num as nat) == hex_tail(m as nat) + buf@.subrange(i as int, len as int),
        decreases i,
    {
        proof {
            lemma_hex_digits_step(m as nat);
        }
        let ghost tail0 = buf@.subrange(i as int, len as int);
        i = i - 1;
        buf[i] = hex_char((m % 16) as u8);
        assert(buf@.subrange(i as int, len as int) =~= seq![hex_byte((m % 16) as nat)] + tail0);
        assert(buf@.subrange(0, i as int) =~= b0.subrange(0, i as int));
        let ghost m0 = m;
        m = m / 16;
        assert(hex_tail(m as nat) + buf@.subrange(i as int, len as int) =~= hex_tail(m as nat).push(
            hex_byte((m0 % 16) as nat),
        ) + tail0);
    }
    let s: &[u8] = &buf[i..len];
    let ghost sv = s@;
    proof {
        lemma_hex_digits_ascii(num as nat);
        let d = hex_digits(num as nat);
        if m == 0 {
            assert(sv =~= d);
        } else {
            assert(i == 0);
            assert(d.len() >= len);
            assert(sv =~= last_n(d, len as nat));
        }
        assert(all_ascii(sv));
        lemma_ascii_valid_utf8(sv);
        assert(buf@ =~= b0.subrange(0, len - sv.len()) + sv);
    }
    match str_from_utf8(s) {
        Some(t) => t,
        None => {
            proof {
                assert(false);
            }
            ""
        },
    }
}

/// Writes `value` as two upper-case hexadecimal digits, a space and a zero
/// byte into `buffer`, and returns the first three as a string.
pub fn u8_to_hex(value: u8, buffer: &mut [u8; 4]) -> (r: &str)
    ensures
        final(buffer)@ == seq![hex_byte((value / 16) as nat), hex_byte((value % 16) as nat), 32u8, 0u8],
        r.spec_bytes() == seq![hex_byte((value / 16) as nat), hex_byte((value % 16) as nat), 32u8],
{
    assert(value >> 4 == value / 16) by (bit_vector);
    assert(value & 0x0F == value % 16) by (bit_vector);
    buffer[0] = hex_char(value >> 4);
    buffer[1] = hex_char(value & 0x0F);
    buffer[2] = 32u8;
    buffer[3] = 0u8;
    assert(buffer@ =~= seq![hex_byte((value / 16) as nat), hex_byte((value % 16) as nat), 32u8, 0u8]);
    let whole: &[u8] = buffer.as_slice();
    let s: &[u8] = &whole[0..3];
    let ghost sv = s@;
    proof {
        assert(sv =~= seq![hex_byte((value / 16) as nat), hex_byte((value % 16) as nat), 32u8]);
        lemma_ascii_valid_utf8(sv);
    }
    match str_from_utf8(s) {
        Some(t) => t,
        None => "??",
    }
}

/// The text of a byte count: whole mebibytes when at least 1 MiB, else whole
/// kibibytes when at least 1 KiB, else bytes.
pub open spec fn size_text(bytes: nat) -> Seq<u8> {
    if bytes >= 1024 * 1024 {
        dec_digits(bytes / 1024 / 1024) + seq![32u8, 77u8, 66u8]
    } else if bytes >= 1024 {
        dec_digits(bytes / 1024) + seq![32u8, 75u8, 66u8]
    } else {
        dec_digits(bytes) + seq![32u8, 66u8]
    }
}

/// `bytes` as a size such as `3 MB`, `12 KB` or `512 B`.
pub fn format_size_bytes(bytes: u64) -> (v: Vec<u8>)
    ensures
        v@ == size_text(bytes as nat),
        all_ascii(v@),
{
    let mut v: Vec<u8>;
    if bytes >= 1024 * 1024 {
        v = u64_decimal(bytes / 1024 / 1024);
        v.push(32u8);
        v.push(77u8);
        v.push(66u8);
        proof { lemma_dec_digits_are_digits((bytes / 1024 / 1024) as nat); }
    } else if bytes >= 1024 {
        v = u64_decimal(bytes / 1024);
        v.push(32u8);
        v.push(75u8);
        v.push(66u8);
        proof { lemma_dec_digits_are_digits((bytes / 1024) as nat); }
    } else {
        v = u64_decimal(bytes);
        v.push(32u8);
        v.push(66u8);
        proof { lemma_dec_digits_are_digits(bytes as nat); }
    }
    assert(v@ =~= size_text(bytes as nat));
    v
}

/// `bytes` as a size such as `3 MB`, `12 KB` or `512 B`.
pub fn format_size(bytes: u64) -> (s: String)
    ensures
        s@ == decode_utf8(size_text(bytes as nat)),
{
    let v = format_size_bytes(bytes);
    ascii_string(&v)
}

} // verus!
