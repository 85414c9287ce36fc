//! The shell's `mdump` command: which address it dumps, and how the dump of
//! 1 KiB of memory is laid out (64 rows of 16 bytes).
use vstd::prelude::*;
use vstd::string::StringSliceAdditionalSpecFns;
use vstd::slice::slice_subrange;
use crate::ring_buffer::{RingBuffer, bytes_pushed};
use crate::text::{hex_digits, pad_left, push_str_bytes, push_padded_left, u64_hexadecimal, push_all, lemma_add_assoc};
use crate::strs::{
    parse_radix_u64, parse_radix_u64_spec, trim_start_matches, without_prefixes, ascii_chars, radix_value,
    digit_value, unsigned_digits,
};
use crate::text::{hex_byte, lemma_hex_digits_ascii};
use vstd::utf8::{decode_utf8, encode_utf8, is_ascii_chars};
use crate::shell::{SEPARATOR, shell_wrote, arg_views};

verus! {

/// Rows in a dump.
pub const DUMP_ROWS: usize = 64;

/// Bytes in a row.
pub const ROW_BYTES: usize = 16;

/// Bytes in a dump.
pub const DUMP_BYTES: usize = 1024;

/// The address given as first argument: hexadecimal digits after any
/// number of leading `0x`.
pub open spec fn mdump_address(args: Seq<Seq<char>>) -> Option<u64> {
    if args.len() > 0 {
        parse_radix_u64_spec(without_prefixes(args[0], "0x"@), 16)
    } else {
        None
    }
}

/// What `mdump` prints when there is nothing to dump.
pub open spec fn mdump_error_text(args: Seq<Seq<char>>) -> Seq<u8> {
    if args.len() == 0 {
        "^&cUsage: mdump <hex_address>\n".spec_bytes()
    } else {
        "^&cInvalid hexadecimal address!\n".spec_bytes()
    }
}

/// `mdump <hex_address>`: finds the address to dump. Without an argument,
/// or with one that is no hexadecimal number, it prints an error and gives
/// `None`; otherwise it prints nothing yet and gives the address, whose
/// memory the caller reads and hands to `write_memory_dump`.
pub fn command_mdump(log: &mut RingBuffer, args: &[&str]) -> (addr: Option<u64>)
    requires
        old(log).wf(),
    ensures
        final(log).wf(),
        addr == mdump_address(arg_views(args@)),
        addr is Some ==> final(log).contents() == old(log).contents(),
        addr is None ==> final(log).contents() == shell_wrote(
            old(log).contents(),
            mdump_error_text(arg_views(args@)),
        ),
        addr is Some ==> final(log).state() == old(log).state(),
        addr is None ==> final(log).state() == bytes_pushed(old(log).state(), mdump_error_text(arg_views(args@))),
{
    if args.len() == 0 {
        log.push_str("^&cUsage: mdump <hex_address>\n");
        return None;
    }
    proof {
        reveal_strlit("0x");
    }
    let digits = trim_start_matches(args[0], "0x");
    match parse_radix_u64(digits, 16) {
        Some(a) => Some(a),
        None => {
            log.push_str("^&cInvalid hexadecimal address!\n");
            None
        },
    }
}

/// Two upper-case hexadecimal digits of a byte.
pub open spec fn hex_byte_text(b: u8) -> Seq<u8> {
    pad_left(hex_digits(b as nat), 2, 48u8)
}

/// Each byte as two hexadecimal digits and a space.
pub open spec fn hex_cells(row: Seq<u8>) -> Seq<u8>
    decreases row.len(),
{
    if row.len() == 0 {
        Seq::empty()
    } else {
        hex_cells(row.drop_last()) + hex_byte_text(row.last()) + " ".spec_bytes()
    }
}

/// A byte as shown in the text column: itself when printable ASCII, else `.`.
pub open spec fn printable(b: u8) -> u8 {
    if 32 <= b <= 126 {
        b
    } else {
        46u8
    }
}

/// One row: the address in 16 hexadecimal digits, the bytes in hexadecimal,
/// then the bytes as text.
pub open spec fn dump_row(addr: nat, row: Seq<u8>) -> Seq<u8> {
    "^&9".spec_bytes() + pad_left(hex_digits(addr), 16, 48u8) + "  ^&f".spec_bytes() + hex_cells(row)
        + " ^&8| ^&7".spec_bytes() + row.map_values(|b: u8| printable(b)) + "\n".spec_bytes()
}

/// The first `n` rows of the dump of `mem` at `addr`.
pub open spec fn dump_rows(addr: nat, mem: Seq<u8>, n: nat) -> Seq<u8>
    decreases n,
{
    if n == 0 {
        Seq::empty()
    } else {
        dump_rows(addr, mem, (n - 1) as nat) + dump_row(
            (addr + (n - 1) * 16) as nat,
            mem.subrange((n - 1) * 16, (n * 16) as int),
        )
    }
}

/// The whole dump of the 1024 bytes `mem` read at `addr`.
pub open spec fn mdump_text(addr: u64, mem: Seq<u8>) -> Seq<u8> {
    SEPARATOR.spec_bytes() + "^&eMemory Dump at: ^&f0x".spec_bytes() + hex_digits(addr as nat) + "\n".spec_bytes()
        + SEPARATOR.spec_bytes() + dump_rows(addr as nat, mem, 64) + SEPARATOR.spec_bytes()
}

fn push_hex_cells(out: &mut Vec<u8>, row: &[u8])
    ensures
        final(out)@ == old(out)@ + hex_cells(row@),
{
    let ghost o = out@;
    let mut i: usize = 0;
    while i < row.len()
        invariant
            0 <= i <= row@.len(),
            out@ == o + hex_cells(row@.take(i as int)),
        decreases row@.len() - i,
    {
        let h = u64_hexadecimal(row[i] as u64);
        push_padded_left(out, &h, 2, 48u8);
        push_str_bytes(out, " ");
        proof {
            let t = row@.take(i + 1);
            assert(t.drop_last() =~= row@.take(i as int));
            lemma_add_assoc(o, hex_cells(row@.take(i as int)), hex_byte_text(row@[i as int]));
            lemma_add_assoc(o, hex_cells(row@.take(i as int)) + hex_byte_text(row@[i as int]), " ".spec_bytes());
        }
        i = i + 1;
    }
    assert(row@.take(row@.len() as int) =~= row@);
}

fn push_printable(out: &mut Vec<u8>, row: &[u8])
    ensures
        final(out)@ == old(out)@ + row@.map_values(|b: u8| printable(b)),
{
    let ghost o = out@;
    let mut i: usize = 0;
    while i < row.len()
        invariant
            0 <= i <= row@.len(),
            out@ == o + row@.take(i as int).map_values(|b: u8| printable(b)),
        decreases row@.len() - i,
    {
        let b = row[i];
        let c: u8 = if 32 <= b && b <= 126 { b } else { 46u8 };
        out.push(c);
        assert(row@.take(i + 1).map_values(|b: u8| printable(b)) =~= row@.take(i as int).map_values(
            |b: u8| printable(b),
        ).push(c));
        i = i + 1;
    }
    assert(row@.take(row@.len() as int) =~= row@);
}

fn push_dump_row(out: &mut Vec<u8>, addr: u64, row: &[u8])
    ensures
        final(out)@ == old(out)@ + dump_row(addr as nat, row@),
{
    let ghost o = out@;
    push_str_bytes(out, "^&9");
    let h = u64_hexadecimal(addr);
    push_padded_left(out, &h, 16, 48u8);
    push_str_bytes(out, "  ^&f");
    push_hex_cells(out, row);
    push_str_bytes(out, " ^&8| ^&7");
    push_printable(out, row);
    push_str_bytes(out, "\n");
    assert(out@ =~= o + dump_row(addr as nat, row@));
}

/// Finishes `mdump` with the 1024 bytes read at `addr`: writes the dump,
/// then the colour reset that ends every command.
pub fn write_memory_dump(log: &mut RingBuffer, addr: u64, mem: &[u8])
    requires
        old(log).wf(),
        mem@.len() == DUMP_BYTES,
        addr + 63 * 16 <= u64::MAX,
    ensures
        final(log).wf(),
        final(log).contents() == shell_wrote(shell_wrote(old(log).contents(), mdump_text(addr, mem@)), "^&f".spec_bytes()),
        final(log).state() == bytes_pushed(bytes_pushed(old(log).state(), mdump_text(addr, mem@)), "^&f".spec_bytes()),
{
    let mut out: Vec<u8> = Vec::new();
    push_str_bytes(&mut out, SEPARATOR);
    push_str_bytes(&mut out, "^&eMemory Dump at: ^&f0x");
    let h = u64_hexadecimal(addr);
    push_all(&mut out, &h);
    push_str_bytes(&mut out, "\n");
    push_str_bytes(&mut out, SEPARATOR);
    let ghost head = out@;
    let mut row: usize = 0;
    while row < DUMP_ROWS
        invariant
            0 <= row <= DUMP_ROWS,
            mem@.len() == DUMP_BYTES,
            addr + 63 * 16 <= u64::MAX,
            out@ == head + dump_rows(addr as nat, mem@, row as nat),
        decreases DUMP_ROWS - row,
    {
        let start: usize = row * ROW_BYTES;
        let line = slice_subrange(mem, start, start + ROW_BYTES);
        let row_addr: u64 = addr + (row as u64) * 16;
        push_dump_row(&mut out, row_addr, line);
        proof {
            lemma_add_assoc(head, dump_rows(addr as nat, mem@, row as nat), dump_row(row_addr as nat, line@));
        }
        row = row + 1;
    }
    push_str_bytes(&mut out, SEPARATOR);
    assert(out@ =~= mdump_text(addr, mem@));
    log.push_bytes(out.as_slice());
    log.push_str("^&f");
}


/// Whether `c` is an upper-case hexadecimal digit.
spec fn is_hex_char(c: char) -> bool {
    ('0' <= c <= '9') || ('A' <= c <= 'F')
}

proof fn lemma_hex_chars_value(n: nat)
    ensures
        radix_value(ascii_chars(hex_digits(n)), 16) == n,
        forall|i: int| 0 <= i < hex_digits(n).len() ==> is_hex_char(#[trigger] ascii_chars(hex_digits(n))[i]),
    decreases n,
{
    lemma_hex_digits_ascii(n);
    let c = ascii_chars(hex_digits(n));
    let d = hex_byte(n % 16);
    assert(hex_digits(n).last() == d);
    assert(c.last() == d as char);
    assert((d as char) as nat == d as nat);
    assert(c.len() == hex_digits(n).len());
    assert(digit_value(c.last()) == n % 16);
    if n < 16 {
        assert(c.drop_last() =~= Seq::<char>::empty());
        assert(radix_value(c, 16) == radix_value(c.drop_last(), 16) * 16 + digit_value(c.last()));
    } else {
        lemma_hex_chars_value(n / 16);
        assert(c.drop_last() =~= ascii_chars(hex_digits(n / 16)));
        assert(radix_value(c, 16) == radix_value(c.drop_last(), 16) * 16 + digit_value(c.last()));
        assert((n / 16) * 16 + n % 16 == n);
        assert forall|i: int| 0 <= i < c.len() implies is_hex_char(#[trigger] c[i]) by {
            if i < c.len() - 1 {
                assert(c[i] == c.drop_last()[i]);
            }
        }
    }
}

proof fn lemma_radix_leading_zeros(z: Seq<char>, s: Seq<char>)
    requires
        forall|i: int| 0 <= i < z.len() ==> #[trigger] z[i] == '0',
    ensures
        radix_value(z + s, 16) == radix_value(s, 16),
    decreases z.len() + s.len(),
{
    if s.len() == 0 {
        assert(z + s =~= z);
        if z.len() > 0 {
            assert(z.drop_last() + s =~= z.drop_last());
            lemma_radix_leading_zeros(z.drop_last(), s);
        }
    } else {
        assert((z + s).drop_last() =~= z + s.drop_last());
        lemma_radix_leading_zeros(z, s.drop_last());
    }
}

/// The address a dump row starts with, typed back as the argument of
/// `mdump`, is the address that row shows.
pub proof fn dump_address_reads_back(n: u64)
    ensures
        mdump_address(seq![decode_utf8(pad_left(hex_digits(n as nat), 16, 48u8))]) == Some(n),
{
    let h = hex_digits(n as nat);
    let p = pad_left(h, 16, 48u8);
    let c = ascii_chars(p);
    lemma_hex_chars_value(n as nat);
    lemma_hex_digits_ascii(n as nat);
    let hc = ascii_chars(h);
    let zc = if h.len() >= 16 { Seq::<char>::empty() } else { ascii_chars(Seq::new((16 - h.len()) as nat, |i: int| 48u8)) };
    assert(c =~= zc + hc);
    assert forall|i: int| 0 <= i < c.len() implies is_hex_char(#[trigger] c[i]) by {
        if i >= zc.len() {
            assert(c[i] == hc[i - zc.len()]);
        }
    }
    lemma_radix_leading_zeros(zc, hc);
    assert(is_ascii_chars(c));
    vstd::utf8::is_ascii_chars_encode_utf8(c);
    assert(encode_utf8(c) =~= p);
    vstd::utf8::encode_utf8_decode_utf8(c);
    reveal_strlit("0x");
    assert(c.len() >= 2 ==> c.take(2) != "0x"@) by {
        if c.len() >= 2 {
            assert(c.take(2)[1] == c[1]);
            assert("0x"@[1] == 'x');
        }
    }
    assert(without_prefixes(c, "0x"@) == c);
    assert(unsigned_digits(c) == c);
    assert(seq![c][0] == c);
}

} // verus!
