//! Kernel logger: formats a line with a timestamp and a coloured level tag
//! into a fixed 512-byte buffer and appends it to a log ring buffer.
use vstd::prelude::*;
use vstd::string::StringSliceAdditionalSpecFns;
use vstd::utf8::valid_utf8;
use crate::ring_buffer::{RingBuffer, LOG_BUFFER_SIZE, last_n, bytes_pushed};
use crate::text::{dec_digits, pad_left, str_from_utf8, u64_decimal, push_padded_left};

verus! {

/// Capacity of the buffer a log line is formatted into.
pub const LOG_LINE_CAPACITY: usize = 512;

/// `s` cut to its first `n` bytes.
pub open spec fn first_n(s: Seq<u8>, n: nat) -> Seq<u8> {
    if s.len() <= n {
        s
    } else {
        s.subrange(0, n as int)
    }
}

/// The text a formatting buffer yields: its bytes when they are valid UTF-8,
/// else nothing.
pub open spec fn utf8_or_empty(s: Seq<u8>) -> Seq<u8> {
    if valid_utf8(s) {
        s
    } else {
        Seq::empty()
    }
}

/// Bounded formatting target: writes past its capacity are cut off.
pub struct Wrapper {
    buf: Vec<u8>,
    offset: usize,
}

impl Wrapper {
    pub closed spec fn capacity(&self) -> nat {
        self.buf@.len()
    }

    /// What was written so far (after truncation).
    pub closed spec fn written(&self) -> Seq<u8> {
        self.buf@.subrange(0, self.offset as int)
    }

    pub closed spec fn wf(&self) -> bool {
        self.offset <= self.buf@.len()
    }

    /// A target that writes into `buf`, whose length is its capacity.
    pub fn new(buf: Vec<u8>) -> (w: Self)
        ensures
            w.wf(),
            w.capacity() == buf@.len(),
            w.written() == Seq::<u8>::empty(),
    {
        let w = Wrapper { buf, offset: 0 };
        assert(w.written() =~= Seq::<u8>::empty());
        w
    }

    /// Appends as much of `bytes` as still fits.
    pub fn write_bytes(&mut self, bytes: &[u8])
        requires
            old(self).wf(),
        ensures
            final(self).wf(),
            final(self).capacity() == old(self).capacity(),
            final(self).written() == first_n(old(self).written() + bytes@, old(self).capacity()),
    {
        let remainder = self.buf.len() - self.offset;
        let to_copy = if bytes.len() > remainder { remainder } else { bytes.len() };
        let ghost w0 = self.written();
        let off = self.offset;
        let blen = self.buf.len();
        let mut i: usize = 0;
        while i < to_copy
            invariant
                0 <= i <= to_copy,
                off == self.offset,
                off + to_copy <= blen,
                blen == self.buf@.len(),
                to_copy <= bytes@.len(),
                self.offset + to_copy <= self.buf@.len(),
                self.buf@.len() == old(self).buf@.len(),
                self.offset == old(self).offset,
                w0 == old(self).written(),
                self.buf@.subrange(0, self.offset + i) == w0 + bytes@.subrange(0, i as int),
            decreases to_copy - i,
        {
            let ghost before = self.buf@;
            let idx = off + i;
            self.buf.set(idx, bytes[i]);
            assert(self.buf@.subrange(0, self.offset + i + 1) =~= w0 + bytes@.subrange(0, i + 1)) by {
                assert(self.buf@.subrange(0, self.offset + i) =~= before.subrange(0, self.offset + i));
            }
            i = i + 1;
        }
        self.offset = self.offset + to_copy;
        assert(self.written() =~= first_n(w0 + bytes@, old(self).capacity()));
    }

    /// Appends as much of `s` as still fits.
    pub fn write_str(&mut self, s: &str)
        requires
            old(self).wf(),
        ensures
            final(self).wf(),
            final(self).capacity() == old(self).capacity(),
            final(self).written() == first_n(old(self).written() + s.spec_bytes(), old(self).capacity()),
    {
        self.write_bytes(s.as_bytes());
    }

    /// What was written, as text; empty when the cut left an incomplete
    /// character at the end.
    pub fn as_str(&self) -> (s: &str)
        requires
            self.wf(),
        ensures
            s.spec_bytes() == utf8_or_empty(self.written()),
    {
        let bytes: &[u8] = &self.buf.as_slice()[0..self.offset];
        assert(bytes@ =~= self.written());
        match str_from_utf8(bytes) {
            Some(t) => t,
            None => {
                let e = "";
                proof {
                    reveal_strlit("");
                    assert(e@ =~= Seq::<char>::empty());
                    assert(vstd::utf8::encode_utf8(e@) =~= Seq::<u8>::empty());
                }
                e
            },
        }
    }
}

/// A wall-clock time of day read from the real-time clock.
#[derive(Clone, Copy, Debug, PartialEq, Eq, Structural)]
pub struct RtcTime {
    pub hour: u8,
    pub minute: u8,
    pub second: u8,
}

/// At least two decimal digits of `n`.
pub open spec fn two_digits(n: u8) -> Seq<u8> {
    pad_left(dec_digits(n as nat), 2, 48u8)
}

/// The timestamped prefix of a log line:
/// `^&8[hh:mm:ss] ^&7[` colour level `^&7] ^&7`.
pub open spec fn line_prefix(time: RtcTime, level: Seq<u8>, color: Seq<u8>) -> Seq<u8> {
    seq![94u8, 38u8, 56u8, 91u8] + two_digits(time.hour) + seq![58u8] + two_digits(time.minute) + seq![58u8]
        + two_digits(time.second) + seq![93u8, 32u8, 94u8, 38u8, 55u8, 91u8] + color + level
        + seq![94u8, 38u8, 55u8, 93u8, 32u8, 94u8, 38u8, 55u8]
}

/// The full text of a log line before it is cut to the buffer size.
pub open spec fn log_line(time: RtcTime, level: Seq<u8>, color: Seq<u8>, msg: Seq<u8>, with_prefix: bool, newline: bool) -> Seq<u8> {
    let body = if with_prefix { line_prefix(time, level, color) + msg } else { msg };
    if newline { body + seq![10u8] } else { body }
}

/// What logging a line adds to the log: the line cut to 512 bytes, or nothing
/// when the cut splits a character.
pub open spec fn logged_bytes(time: RtcTime, level: Seq<u8>, color: Seq<u8>, msg: Seq<u8>, with_prefix: bool, newline: bool) -> Seq<u8> {
    utf8_or_empty(first_n(log_line(time, level, color, msg, with_prefix, newline), LOG_LINE_CAPACITY as nat))
}

/// The log after `line` was appended.
pub open spec fn appended(log: Seq<u8>, line: Seq<u8>) -> Seq<u8> {
    last_n(log + line, LOG_BUFFER_SIZE as nat)
}

proof fn lemma_first_n_concat(a: Seq<u8>, b: Seq<u8>, n: nat)
    ensures
        first_n(first_n(a, n) + b, n) == first_n(a + b, n),
{
    assert(first_n(first_n(a, n) + b, n) =~= first_n(a + b, n));
}

/// Writes a number with at least two digits.
fn write_two_digits(w: &mut Wrapper, n: u8)
    requires
        old(w).wf(),
    ensures
        final(w).wf(),
        final(w).capacity() == old(w).capacity(),
        final(w).written() == first_n(old(w).written() + two_digits(n), old(w).capacity()),
{
    let d = u64_decimal(n as u64);
    let mut v: Vec<u8> = Vec::new();
    push_padded_left(&mut v, &d, 2, 48u8);
    assert(v@ =~= two_digits(n));
    w.write_bytes(v.as_slice());
}

pub struct Logger;

impl Logger {
    pub fn new() -> (l: Self) {
        Logger
    }

    /// Formats one line and appends it to `log`.
    fn log_internal(&self, log: &mut RingBuffer, time: RtcTime, level: &str, color: &str, msg: &str, with_prefix: bool, newline: bool)
        requires
            old(log).wf(),
        ensures
            final(log).wf(),
            final(log).contents() == appended(old(log).contents(), logged_bytes(time, level.spec_bytes(), color.spec_bytes(), msg.spec_bytes(), with_prefix, newline)),
            final(log).state() == bytes_pushed(old(log).state(), logged_bytes(time, level.spec_bytes(), color.spec_bytes(), msg.spec_bytes(), with_prefix, newline)),
    {
        let buf: Vec<u8> = vec![0u8; LOG_LINE_CAPACITY];
        let mut w = Wrapper::new(buf);
        let ghost cap = LOG_LINE_CAPACITY as nat;
        let ghost lv = level.spec_bytes();
        let ghost cv = color.spec_bytes();
        let ghost mv = msg.spec_bytes();
        if with_prefix {
            let open: [u8; 4] = [94u8, 38u8, 56u8, 91u8];
            w.write_bytes(&open);
            write_two_digits(&mut w, time.hour);
            let colon: [u8; 1] = [58u8];
            w.write_bytes(&colon);
            write_two_digits(&mut w, time.minute);
            w.write_bytes(&colon);
            write_two_digits(&mut w, time.second);
            let mid: [u8; 6] = [93u8, 32u8, 94u8, 38u8, 55u8, 91u8];
            w.write_bytes(&mid);
            w.write_str(color);
            w.write_str(level);
            let close: [u8; 8] = [94u8, 38u8, 55u8, 93u8, 32u8, 94u8, 38u8, 55u8];
            w.write_bytes(&close);
            w.write_str(msg);
            proof {
                let e = Seq::<u8>::empty();
                let p0 = seq![94u8, 38u8, 56u8, 91u8];
                let p1 = p0 + two_digits(time.hour);
                let p2 = p1 + seq![58u8];
                let p3 = p2 + two_digits(time.minute);
                let p4 = p3 + seq![58u8];
                let p5 = p4 + two_digits(time.second);
                let p6 = p5 + seq![93u8, 32u8, 94u8, 38u8, 55u8, 91u8];
                let p7 = p6 + cv;
                let p8 = p7 + lv;
                let p9 = p8 + seq![94u8, 38u8, 55u8, 93u8, 32u8, 94u8, 38u8, 55u8];
                let p10 = p9 + mv;
                assert(e + open@ =~= p0);
                lemma_first_n_concat(p0, two_digits(time.hour), cap);
                lemma_first_n_concat(p1, seq![58u8], cap);
                lemma_first_n_concat(p2, two_digits(time.minute), cap);
                lemma_first_n_concat(p3, seq![58u8], cap);
                lemma_first_n_concat(p4, two_digits(time.second), cap);
                lemma_first_n_concat(p5, seq![93u8, 32u8, 94u8, 38u8, 55u8, 91u8], cap);
                lemma_first_n_concat(p6, cv, cap);
                lemma_first_n_concat(p7, lv, cap);
                lemma_first_n_concat(p8, seq![94u8, 38u8, 55u8, 93u8, 32u8, 94u8, 38u8, 55u8], cap);
                lemma_first_n_concat(p9, mv, cap);
                assert(colon@ =~= seq![58u8]);
                assert(mid@ =~= seq![93u8, 32u8, 94u8, 38u8, 55u8, 91u8]);
                assert(close@ =~= seq![94u8, 38u8, 55u8, 93u8, 32u8, 94u8, 38u8, 55u8]);
                assert(p10 =~= line_prefix(time, lv, cv) + mv);
                assert(w.written() == first_n(p10, cap));
            }
        } else {
            w.write_str(msg);
            assert(Seq::<u8>::empty() + mv =~= mv);
        }
        let ghost body = if with_prefix { line_prefix(time, lv, cv) + mv } else { mv };
        assert(w.written() == first_n(body, cap));
        if newline {
            let nl: [u8; 1] = [10u8];
            w.write_bytes(&nl);
            proof {
                lemma_first_n_concat(body, seq![10u8], cap);
                assert(nl@ =~= seq![10u8]);
            }
        }
        assert(w.written() == first_n(log_line(time, lv, cv, mv, with_prefix, newline), cap));
        let text = w.as_str();
        log.push_str(text);
    }

    /// Logs a line at level `INFO`, stamped with `time`.
    pub fn info(&self, log: &mut RingBuffer, time: RtcTime, msg: &str)
        requires
            old(log).wf(),
        ensures
            final(log).wf(),
            final(log).contents() == appended(old(log).contents(), logged_bytes(time, " INFO ".spec_bytes(), "^&9".spec_bytes(), msg.spec_bytes(), true, true)),
            final(log).state() == bytes_pushed(old(log).state(), logged_bytes(time, " INFO ".spec_bytes(), "^&9".spec_bytes(), msg.spec_bytes(), true, true)),
    {
        self.log_internal(log, time, " INFO ", "^&9", msg, true, true);
    }

    /// Logs a line at level `OK`, stamped with `time`.
    pub fn ok(&self, log: &mut RingBuffer, time: RtcTime, msg: &str)
        requires
            old(log).wf(),
        ensures
            final(log).wf(),
            final(log).contents() == appended(old(log).contents(), logged_bytes(time, "  OK  ".spec_bytes(), "^&2".spec_bytes(), msg.spec_bytes(), true, true)),
            final(log).state() == bytes_pushed(old(log).state(), logged_bytes(time, "  OK  ".spec_bytes(), "^&2".spec_bytes(), msg.spec_bytes(), true, true)),
    {
        self.log_internal(log, time, "  OK  ", "^&2", msg, true, true);
    }

    /// Logs a line at level `WARN`, stamped with `time`.
    pub fn warn(&self, log: &mut RingBuffer, time: RtcTime, msg: &str)
        requires
            old(log).wf(),
        ensures
            final(log).wf(),
            final(log).contents() == appended(old(log).contents(), logged_bytes(time, " WARN ".spec_bytes(), "^&6".spec_bytes(), msg.spec_bytes(), true, true)),
            final(log).state() == bytes_pushed(old(log).state(), logged_bytes(time, " WARN ".spec_bytes(), "^&6".spec_bytes(), msg.spec_bytes(), true, true)),
    {
        self.log_internal(log, time, " WARN ", "^&6", msg, true, true);
    }

    /// Logs a line at level `FAILED`, stamped with `time`.
    pub fn error(&self, log: &mut RingBuffer, time: RtcTime, msg: &str)
        requires
            old(log).wf(),
        ensures
            final(log).wf(),
            final(log).contents() == appended(old(log).contents(), logged_bytes(time, "FAILED".spec_bytes(), "^&4".spec_bytes(), msg.spec_bytes(), true, true)),
            final(log).state() == bytes_pushed(old(log).state(), logged_bytes(time, "FAILED".spec_bytes(), "^&4".spec_bytes(), msg.spec_bytes(), true, true)),
    {
        self.log_internal(log, time, "FAILED", "^&4", msg, true, true);
    }

    /// Logs a line at level `WAIT`, stamped with `time`.
    pub fn wait(&self, log: &mut RingBuffer, time: RtcTime, msg: &str)
        requires
            old(log).wf(),
        ensures
            final(log).wf(),
            final(log).contents() == appended(old(log).contents(), logged_bytes(time, " WAIT ".spec_bytes(), "^&e".spec_bytes(), msg.spec_bytes(), true, true)),
            final(log).state() == bytes_pushed(old(log).state(), logged_bytes(time, " WAIT ".spec_bytes(), "^&e".spec_bytes(), msg.spec_bytes(), true, true)),
    {
        self.log_internal(log, time, " WAIT ", "^&e", msg, true, true);
    }

    /// Logs a line at level `DBUG`, stamped with `time`.
    pub fn debug(&self, log: &mut RingBuffer, time: RtcTime, msg: &str)
        requires
            old(log).wf(),
        ensures
            final(log).wf(),
            final(log).contents() == appended(old(log).contents(), logged_bytes(time, " DBUG ".spec_bytes(), "^&5".spec_bytes(), msg.spec_bytes(), true, true)),
            final(log).state() == bytes_pushed(old(log).state(), logged_bytes(time, " DBUG ".spec_bytes(), "^&5".spec_bytes(), msg.spec_bytes(), true, true)),
    {
        self.log_internal(log, time, " DBUG ", "^&5", msg, true, true);
    }

    /// Logs a line at level `TUNNEL`, stamped with `time`.
    pub fn tunnel(&self, log: &mut RingBuffer, time: RtcTime, msg: &str)
        requires
            old(log).wf(),
        ensures
            final(log).wf(),
            final(log).contents() == appended(old(log).contents(), logged_bytes(time, "TUNNEL".spec_bytes(), "^&3".spec_bytes(), msg.spec_bytes(), true, true)),
            final(log).state() == bytes_pushed(old(log).state(), logged_bytes(time, "TUNNEL".spec_bytes(), "^&3".spec_bytes(), msg.spec_bytes(), true, true)),
    {
        self.log_internal(log, time, "TUNNEL", "^&3", msg, true, true);
    }

    /// Logs a line at level `SCED`, stamped with `time`.
    pub fn scheduler(&self, log: &mut RingBuffer, time: RtcTime, msg: &str)
        requires
            old(log).wf(),
        ensures
            final(log).wf(),
            final(log).contents() == appended(old(log).contents(), logged_bytes(time, " SCED ".spec_bytes(), "^&e".spec_bytes(), msg.spec_bytes(), true, true)),
            final(log).state() == bytes_pushed(old(log).state(), logged_bytes(time, " SCED ".spec_bytes(), "^&e".spec_bytes(), msg.spec_bytes(), true, true)),
    {
        self.log_internal(log, time, " SCED ", "^&e", msg, true, true);
    }

    /// Logs a message without a trailing newline at level `INFO`, stamped with `time`.
    pub fn info_nl(&self, log: &mut RingBuffer, time: RtcTime, msg: &str)
        requires
            old(log).wf(),
        ensures
            final(log).wf(),
            final(log).contents() == appended(old(log).contents(), logged_bytes(time, " INFO ".spec_bytes(), "^&9".spec_bytes(), msg.spec_bytes(), true, false)),
            final(log).state() == bytes_pushed(old(log).state(), logged_bytes(time, " INFO ".spec_bytes(), "^&9".spec_bytes(), msg.spec_bytes(), true, false)),
    {
        self.log_internal(log, time, " INFO ", "^&9", msg, true, false);
    }

    /// Logs a message without a trailing newline at level `OK`, stamped with `time`.
    pub fn ok_nl(&self, log: &mut RingBuffer, time: RtcTime, msg: &str)
        requires
            old(log).wf(),
        ensures
            final(log).wf(),
            final(log).contents() == appended(old(log).contents(), logged_bytes(time, "  OK  ".spec_bytes(), "^&2".spec_bytes(), msg.spec_bytes(), true, false)),
            final(log).state() == bytes_pushed(old(log).state(), logged_bytes(time, "  OK  ".spec_bytes(), "^&2".spec_bytes(), msg.spec_bytes(), true, false)),
    {
        self.log_internal(log, time, "  OK  ", "^&2", msg, true, false);
    }

    /// Logs a message without a trailing newline at level `WARN`, stamped with `time`.
    pub fn warn_nl(&self, log: &mut RingBuffer, time: RtcTime, msg: &str)
        requires
            old(log).wf(),
        ensures
            final(log).wf(),
            final(log).contents() == appended(old(log).contents(), logged_bytes(time, " WARN ".spec_bytes(), "^&6".spec_bytes(), msg.spec_bytes(), true, false)),
            final(log).state() == bytes_pushed(old(log).state(), logged_bytes(time, " WARN ".spec_bytes(), "^&6".spec_bytes(), msg.spec_bytes(), true, false)),
    {
        self.log_internal(log, time, " WARN ", "^&6", msg, true, false);
    }

    /// Logs a message without a trailing newline at level `FAILED`, stamped with `time`.
    pub fn error_nl(&self, log: &mut RingBuffer, time: RtcTime, msg: &str)
        requires
            old(log).wf(),
        ensures
            final(log).wf(),
            final(log).contents() == appended(old(log).contents(), logged_bytes(time, "FAILED".spec_bytes(), "^&4".spec_bytes(), msg.spec_bytes(), true, false)),
            final(log).state() == bytes_pushed(old(log).state(), logged_bytes(time, "FAILED".spec_bytes(), "^&4".spec_bytes(), msg.spec_bytes(), true, false)),
    {
        self.log_internal(log, time, "FAILED", "^&4", msg, true, false);
    }

    /// Logs a message without a trailing newline at level `WAIT`, stamped with `time`.
    pub fn wait_nl(&self, log: &mut RingBuffer, time: RtcTime, msg: &str)
        requires
            old(log).wf(),
        ensures
            final(log).wf(),
            final(log).contents() == appended(old(log).contents(), logged_bytes(time, " WAIT ".spec_bytes(), "^&e".spec_bytes(), msg.spec_bytes(), true, false)),
            final(log).state() == bytes_pushed(old(log).state(), logged_bytes(time, " WAIT ".spec_bytes(), "^&e".spec_bytes(), msg.spec_bytes(), true, false)),
    {
        self.log_internal(log, time, " WAIT ", "^&e", msg, true, false);
    }

    /// Logs a message without a trailing newline at level `DBUG`, stamped with `time`.
    pub fn debug_nl(&self, log: &mut RingBuffer, time: RtcTime, msg: &str)
        requires
            old(log).wf(),
        ensures
            final(log).wf(),
            final(log).contents() == appended(old(log).contents(), logged_bytes(time, " DBUG ".spec_bytes(), "^&5".spec_bytes(), msg.spec_bytes(), true, false)),
            final(log).state() == bytes_pushed(old(log).state(), logged_bytes(time, " DBUG ".spec_bytes(), "^&5".spec_bytes(), msg.spec_bytes(), true, false)),
    {
        self.log_internal(log, time, " DBUG ", "^&5", msg, true, false);
    }

    /// Logs `msg` as it is: no timestamp, no level, no newline.
    pub fn raw(&self, log: &mut RingBuffer, msg: &str)
        requires
            old(log).wf(),
        ensures
            final(log).wf(),
            final(log).contents() == appended(old(log).contents(), logged_bytes(RtcTime { hour: 0, minute: 0, second: 0 }, "".spec_bytes(), "".spec_bytes(), msg.spec_bytes(), false, false)),
            final(log).state() == bytes_pushed(old(log).state(), logged_bytes(RtcTime { hour: 0, minute: 0, second: 0 }, "".spec_bytes(), "".spec_bytes(), msg.spec_bytes(), false, false)),
    {
        self.log_internal(log, RtcTime { hour: 0, minute: 0, second: 0 }, "", "", msg, false, false);
    }

    /// Logs `msg` followed by a newline, with no timestamp or level.
    pub fn raw_line(&self, log: &mut RingBuffer, msg: &str)
        requires
            old(log).wf(),
        ensures
            final(log).wf(),
            final(log).contents() == appended(old(log).contents(), logged_bytes(RtcTime { hour: 0, minute: 0, second: 0 }, "".spec_bytes(), "".spec_bytes(), msg.spec_bytes(), false, true)),
            final(log).state() == bytes_pushed(old(log).state(), logged_bytes(RtcTime { hour: 0, minute: 0, second: 0 }, "".spec_bytes(), "".spec_bytes(), msg.spec_bytes(), false, true)),
    {
        self.log_internal(log, RtcTime { hour: 0, minute: 0, second: 0 }, "", "", msg, false, true);
    }

    /// Logs a line with a caller-chosen level text and colour code.
    pub fn custom(&self, log: &mut RingBuffer, time: RtcTime, level: &str, color_code: &str, msg: &str)
        requires
            old(log).wf(),
        ensures
            final(log).wf(),
            final(log).contents() == appended(old(log).contents(), logged_bytes(time, level.spec_bytes(), color_code.spec_bytes(), msg.spec_bytes(), true, true)),
            final(log).state() == bytes_pushed(old(log).state(), logged_bytes(time, level.spec_bytes(), color_code.spec_bytes(), msg.spec_bytes(), true, true)),
    {
        self.log_internal(log, time, level, color_code, msg, true, true);
    }
}


/// No log line is longer than the formatting buffer, whatever the message.
pub proof fn log_lines_are_bounded(
    time: RtcTime,
    level: Seq<u8>,
    color: Seq<u8>,
    msg: Seq<u8>,
    with_prefix: bool,
    newline: bool,
)
    ensures
        logged_bytes(time, level, color, msg, with_prefix, newline).len() <= LOG_LINE_CAPACITY,
{
}

} // verus!
