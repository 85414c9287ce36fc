//! Log messages built from text and numbers, and the log lines they make.
use vstd::prelude::*;
use vstd::string::StringSliceAdditionalSpecFns;
use vstd::utf8::{valid_utf8, valid_utf8_concat};
use crate::ring_buffer::{RingBuffer, LogState, bytes_pushed};
use crate::logger::{Logger, RtcTime, appended, logged_bytes};
use crate::text::{
    hex_digits, u64_hexadecimal, lemma_hex_digits_ascii, lower_hex_digits, u64_lower_hexadecimal, lemma_lower_hex_ascii, pad_left, push_padded_left, push_all,
    push_str_bytes, dec_digits, u64_decimal, lemma_dec_digits_are_digits, all_ascii, lemma_ascii_valid_utf8,
    lemma_str_bytes_valid, bytes_as_str,
};

verus! {

/// The log after a line at `level` in `color` with the text `msg`.
pub open spec fn logged(log: Seq<u8>, time: RtcTime, level: Seq<u8>, color: Seq<u8>, msg: Seq<u8>) -> Seq<u8> {
    appended(log, logged_bytes(time, level, color, msg, true, true))
}

/// The whole log buffer after a line at `level` in `color` with the text
/// `msg`.
pub open spec fn logged_state(st: LogState, time: RtcTime, level: Seq<u8>, color: Seq<u8>, msg: Seq<u8>) -> LogState {
    bytes_pushed(st, logged_bytes(time, level, color, msg, true, true))
}

pub open spec fn error_state(st: LogState, time: RtcTime, msg: Seq<u8>) -> LogState {
    logged_state(st, time, "FAILED".spec_bytes(), "^&4".spec_bytes(), msg)
}

pub open spec fn warn_state(st: LogState, time: RtcTime, msg: Seq<u8>) -> LogState {
    logged_state(st, time, " WARN ".spec_bytes(), "^&6".spec_bytes(), msg)
}

pub open spec fn debug_state(st: LogState, time: RtcTime, msg: Seq<u8>) -> LogState {
    logged_state(st, time, " DBUG ".spec_bytes(), "^&5".spec_bytes(), msg)
}

pub open spec fn tunnel_state(st: LogState, time: RtcTime, msg: Seq<u8>) -> LogState {
    logged_state(st, time, "TUNNEL".spec_bytes(), "^&3".spec_bytes(), msg)
}

pub open spec fn error_logged(log: Seq<u8>, time: RtcTime, msg: Seq<u8>) -> Seq<u8> {
    logged(log, time, "FAILED".spec_bytes(), "^&4".spec_bytes(), msg)
}

pub open spec fn warn_logged(log: Seq<u8>, time: RtcTime, msg: Seq<u8>) -> Seq<u8> {
    logged(log, time, " WARN ".spec_bytes(), "^&6".spec_bytes(), msg)
}

pub open spec fn debug_logged(log: Seq<u8>, time: RtcTime, msg: Seq<u8>) -> Seq<u8> {
    logged(log, time, " DBUG ".spec_bytes(), "^&5".spec_bytes(), msg)
}

pub open spec fn tunnel_logged(log: Seq<u8>, time: RtcTime, msg: Seq<u8>) -> Seq<u8> {
    logged(log, time, "TUNNEL".spec_bytes(), "^&3".spec_bytes(), msg)
}

/// Lower-case hexadecimal digits padded with zeros to 16.
pub open spec fn hex16(n: u64) -> Seq<u8> {
    pad_left(lower_hex_digits(n as nat), 16, 48u8)
}

/// Appends text, keeping `out` valid UTF-8.
pub fn push_text(out: &mut Vec<u8>, s: &str)
    requires
        valid_utf8(old(out)@),
    ensures
        final(out)@ == old(out)@ + s.spec_bytes(),
        valid_utf8(final(out)@),
{
    push_str_bytes(out, s);
    proof {
        lemma_str_bytes_valid(s);
        valid_utf8_concat(old(out)@, s.spec_bytes());
    }
}

/// Appends ASCII bytes, keeping `out` valid UTF-8.
pub fn push_ascii(out: &mut Vec<u8>, v: &Vec<u8>)
    requires
        valid_utf8(old(out)@),
        all_ascii(v@),
    ensures
        final(out)@ == old(out)@ + v@,
        valid_utf8(final(out)@),
{
    push_all(out, v);
    proof {
        lemma_ascii_valid_utf8(v@);
        valid_utf8_concat(old(out)@, v@);
    }
}

/// Appends the lower-case hexadecimal digits of `n`.
pub fn push_hex(out: &mut Vec<u8>, n: u64)
    requires
        valid_utf8(old(out)@),
    ensures
        final(out)@ == old(out)@ + lower_hex_digits(n as nat),
        valid_utf8(final(out)@),
{
    let h = u64_lower_hexadecimal(n);
    proof {
        lemma_lower_hex_ascii(n as nat);
    }
    push_ascii(out, &h);
}

/// Appends the lower-case hexadecimal digits of `n`, padded to 16.
pub fn push_hex16(out: &mut Vec<u8>, n: u64)
    requires
        valid_utf8(old(out)@),
    ensures
        final(out)@ == old(out)@ + hex16(n),
        valid_utf8(final(out)@),
{
    let h = u64_lower_hexadecimal(n);
    let mut p: Vec<u8> = Vec::new();
    push_padded_left(&mut p, &h, 16, 48u8);
    proof {
        lemma_lower_hex_ascii(n as nat);
        assert(p@ =~= hex16(n));
        assert forall|i: int| 0 <= i < p@.len() implies #[trigger] p@[i] < 128 by {
            if h@.len() < 16 && i < 16 - h@.len() {
                assert(p@[i] == 48u8);
            } else if h@.len() < 16 {
                assert(p@[i] == h@[i - (16 - h@.len())]);
            } else {
                assert(p@[i] == h@[i]);
            }
        }
    }
    push_ascii(out, &p);
}

/// Appends the decimal digits of `n`.
pub fn push_dec(out: &mut Vec<u8>, n: u64)
    requires
        valid_utf8(old(out)@),
    ensures
        final(out)@ == old(out)@ + dec_digits(n as nat),
        valid_utf8(final(out)@),
{
    let d = u64_decimal(n);
    proof {
        lemma_dec_digits_are_digits(n as nat);
    }
    push_ascii(out, &d);
}

pub fn log_error(log: &mut RingBuffer, time: RtcTime, msg: &Vec<u8>)
    requires
        old(log).wf(),
        valid_utf8(msg@),
    ensures
        final(log).wf(),
        final(log).contents() == error_logged(old(log).contents(), time, msg@),
        final(log).state() == logged_state(old(log).state(), time, "FAILED".spec_bytes(), "^&4".spec_bytes(), msg@),
{
    let s = bytes_as_str(msg.as_slice());
    Logger::new().error(log, time, s);
}

pub fn log_warn(log: &mut RingBuffer, time: RtcTime, msg: &Vec<u8>)
    requires
        old(log).wf(),
        valid_utf8(msg@),
    ensures
        final(log).wf(),
        final(log).contents() == warn_logged(old(log).contents(), time, msg@),
        final(log).state() == logged_state(old(log).state(), time, " WARN ".spec_bytes(), "^&6".spec_bytes(), msg@),
{
    let s = bytes_as_str(msg.as_slice());
    Logger::new().warn(log, time, s);
}

pub fn log_debug(log: &mut RingBuffer, time: RtcTime, msg: &Vec<u8>)
    requires
        old(log).wf(),
        valid_utf8(msg@),
    ensures
        final(log).wf(),
        final(log).contents() == debug_logged(old(log).contents(), time, msg@),
        final(log).state() == logged_state(old(log).state(), time, " DBUG ".spec_bytes(), "^&5".spec_bytes(), msg@),
{
    let s = bytes_as_str(msg.as_slice());
    Logger::new().debug(log, time, s);
}

pub fn empty_text() -> (v: Vec<u8>)
    ensures
        v@ == Seq::<u8>::empty(),
        valid_utf8(v@),
{
    let v: Vec<u8> = Vec::new();
    proof {
        lemma_ascii_valid_utf8(v@);
    }
    v
}

pub open spec fn info_logged(log: Seq<u8>, time: RtcTime, msg: Seq<u8>) -> Seq<u8> {
    logged(log, time, " INFO ".spec_bytes(), "^&9".spec_bytes(), msg)
}

pub open spec fn ok_logged(log: Seq<u8>, time: RtcTime, msg: Seq<u8>) -> Seq<u8> {
    logged(log, time, "  OK  ".spec_bytes(), "^&2".spec_bytes(), msg)
}

pub fn log_info(log: &mut RingBuffer, time: RtcTime, msg: &Vec<u8>)
    requires
        old(log).wf(),
        valid_utf8(msg@),
    ensures
        final(log).wf(),
        final(log).contents() == info_logged(old(log).contents(), time, msg@),
        final(log).state() == logged_state(old(log).state(), time, " INFO ".spec_bytes(), "^&9".spec_bytes(), msg@),
{
    let s = bytes_as_str(msg.as_slice());
    Logger::new().info(log, time, s);
}

pub fn log_ok(log: &mut RingBuffer, time: RtcTime, msg: &Vec<u8>)
    requires
        old(log).wf(),
        valid_utf8(msg@),
    ensures
        final(log).wf(),
        final(log).contents() == ok_logged(old(log).contents(), time, msg@),
        final(log).state() == logged_state(old(log).state(), time, "  OK  ".spec_bytes(), "^&2".spec_bytes(), msg@),
{
    let s = bytes_as_str(msg.as_slice());
    Logger::new().ok(log, time, s);
}

/// Upper-case hexadecimal digits padded with zeros to 16.
pub open spec fn upper_hex16(n: u64) -> Seq<u8> {
    pad_left(hex_digits(n as nat), 16, 48u8)
}

/// Appends the upper-case hexadecimal digits of `n`.
pub fn push_upper_hex(out: &mut Vec<u8>, n: u64)
    requires
        valid_utf8(old(out)@),
    ensures
        final(out)@ == old(out)@ + hex_digits(n as nat),
        valid_utf8(final(out)@),
{
    let h = u64_hexadecimal(n);
    proof {
        lemma_hex_digits_ascii(n as nat);
    }
    push_ascii(out, &h);
}

/// Appends the upper-case hexadecimal digits of `n`, padded to 16.
pub fn push_upper_hex16(out: &mut Vec<u8>, n: u64)
    requires
        valid_utf8(old(out)@),
    ensures
        final(out)@ == old(out)@ + upper_hex16(n),
        valid_utf8(final(out)@),
{
    let h = u64_hexadecimal(n);
    let mut p: Vec<u8> = Vec::new();
    push_padded_left(&mut p, &h, 16, 48u8);
    proof {
        lemma_hex_digits_ascii(n as nat);
        assert(p@ =~= upper_hex16(n));
        assert forall|i: int| 0 <= i < p@.len() implies #[trigger] p@[i] < 128 by {
            if h@.len() < 16 && i < 16 - h@.len() {
                assert(p@[i] == 48u8);
            } else if h@.len() < 16 {
                assert(p@[i] == h@[i - (16 - h@.len())]);
            } else {
                assert(p@[i] == h@[i]);
            }
        }
    }
    push_ascii(out, &p);
}

/// Appends valid UTF-8, keeping `out` valid UTF-8.
pub fn push_valid(out: &mut Vec<u8>, v: &Vec<u8>)
    requires
        valid_utf8(old(out)@),
        valid_utf8(v@),
    ensures
        final(out)@ == old(out)@ + v@,
        valid_utf8(final(out)@),
{
    push_all(out, v);
    proof {
        valid_utf8_concat(old(out)@, v@);
    }
}

} // verus!
