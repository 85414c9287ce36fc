//! Heapless byte ring buffer that keeps the most recent log output.
use vstd::prelude::*;
use vstd::slice::*;
use vstd::string::StringSliceAdditionalSpecFns;
use crate::text::dec_digits;
use vstd::arithmetic::div_mod::{lemma_add_mod_noop, lemma_mod_decreases, lemma_small_mod};

verus! {

/// Capacity of a log ring buffer in bytes.
pub const LOG_BUFFER_SIZE: usize = 16384;

/// The last `n` elements of `s` (all of `s` when it is shorter).
pub open spec fn last_n(s: Seq<u8>, n: nat) -> Seq<u8> {
    if s.len() <= n {
        s
    } else {
        s.subrange(s.len() - n, s.len() as int)
    }
}

/// The whole value of a log buffer: its storage, its write position and
/// whether it has wrapped.
pub type LogState = (Seq<u8>, nat, bool);

/// A fresh or cleared buffer: zeroed storage, written from the start.
pub open spec fn empty_log_state() -> LogState {
    (Seq::new(LOG_BUFFER_SIZE as nat, |i: int| 0u8), 0, false)
}

/// The buffer after one byte was written: the byte lands at the write
/// position, which advances and wraps to the start at the end.
pub open spec fn byte_pushed(st: LogState, b: u8) -> LogState {
    (st.0.update(st.1 as int, b), (st.1 + 1) % (LOG_BUFFER_SIZE as nat), st.2 || st.1 + 1 == LOG_BUFFER_SIZE)
}

/// The buffer after `data` was written, byte by byte.
pub open spec fn bytes_pushed(st: LogState, data: Seq<u8>) -> LogState
    decreases data.len(),
{
    if data.len() == 0 {
        st
    } else {
        byte_pushed(bytes_pushed(st, data.drop_last()), data.last())
    }
}

/// Writing `a` and then `b` is writing `a + b`.
pub proof fn lemma_bytes_pushed_concat(st: LogState, a: Seq<u8>, b: Seq<u8>)
    ensures
        bytes_pushed(bytes_pushed(st, a), b) == bytes_pushed(st, a + b),
    decreases b.len(),
{
    if b.len() == 0 {
        assert(a + b =~= a);
    } else {
        lemma_bytes_pushed_concat(st, a, b.drop_last());
        assert((a + b).drop_last() =~= a + b.drop_last());
        assert((a + b).last() == b.last());
    }
}

/// The buffer after the most recent byte was removed: the write position
/// steps back (to the end, after a wrap, from the start) and that byte is
/// zeroed; an empty buffer that never wrapped stays as it is.
pub open spec fn byte_popped(st: LogState) -> LogState {
    if st.1 > 0 {
        (st.0.update(st.1 - 1, 0u8), (st.1 - 1) as nat, st.2)
    } else if st.2 {
        (st.0.update(LOG_BUFFER_SIZE - 1, 0u8), (LOG_BUFFER_SIZE - 1) as nat, true)
    } else {
        st
    }
}

/// Fixed-size log buffer: bytes are written at `write_pos`, which wraps to
/// the start once the end is reached.
pub struct RingBuffer {
    buf: Vec<u8>,
    write_pos: usize,
    wrapped: bool,
}

impl RingBuffer {
    /// The buffer is exactly `LOG_BUFFER_SIZE` long, the write position lies
    /// inside it, and before the first wrap everything past the write position
    /// is zero.
    pub closed spec fn wf(&self) -> bool {
        &&& self.buf@.len() == LOG_BUFFER_SIZE
        &&& self.write_pos < LOG_BUFFER_SIZE
        &&& !self.wrapped ==> forall|i: int|
            self.write_pos <= i < LOG_BUFFER_SIZE ==> #[trigger] self.buf@[i] == 0u8
    }

    /// The raw storage.
    pub closed spec fn storage(&self) -> Seq<u8> {
        self.buf@
    }

    /// The next write position.
    pub closed spec fn pos(&self) -> nat {
        self.write_pos as nat
    }

    /// Whether the write position has wrapped around at least once.
    pub closed spec fn has_wrapped(&self) -> bool {
        self.wrapped
    }

    /// The whole value: storage, write position and wrap flag. Everything the
    /// buffer shows (`get_buf`, `get_pos`, `is_wrapped`, the logged bytes)
    /// follows from it.
    pub open spec fn state(&self) -> LogState {
        (self.storage(), self.pos(), self.has_wrapped())
    }

    /// Before the first wrap, everything past the write position is zero.
    pub proof fn lemma_zero_tail(&self, i: int)
        requires
            self.wf(),
            !self.has_wrapped(),
            self.pos() <= i < LOG_BUFFER_SIZE,
        ensures
            self.storage()[i] == 0u8,
    {
    }

    /// The storage read as a ring, oldest byte first: it always holds
    /// `LOG_BUFFER_SIZE` bytes.
    pub open spec fn ring(&self) -> Seq<u8> {
        self.storage().subrange(self.pos() as int, LOG_BUFFER_SIZE as int)
            + self.storage().subrange(0, self.pos() as int)
    }

    /// The logged bytes, oldest first: the whole ring once it has wrapped,
    /// else what was written since the start.
    pub open spec fn contents(&self) -> Seq<u8> {
        if self.has_wrapped() {
            self.ring()
        } else {
            self.storage().subrange(0, self.pos() as int)
        }
    }

    /// A well-formed buffer's storage is `LOG_BUFFER_SIZE` long and the write
    /// position lies inside it.
    pub proof fn lemma_wf_sizes(&self)
        requires
            self.wf(),
        ensures
            self.storage().len() == LOG_BUFFER_SIZE,
            self.pos() < LOG_BUFFER_SIZE,
    {
    }

    /// An empty buffer.
    pub fn new() -> (r: Self)
        ensures
            r.wf(),
            r.contents() == Seq::<u8>::empty(),
            r.pos() == 0,
            !r.has_wrapped(),
            r.storage() == Seq::new(LOG_BUFFER_SIZE as nat, |i: int| 0u8),
            r.state() == empty_log_state(),
    {
        let buf: Vec<u8> = vec![0u8; LOG_BUFFER_SIZE];
        let r = RingBuffer { buf, write_pos: 0, wrapped: false };
        assert(r.contents() =~= Seq::<u8>::empty());
        assert(r.buf@ =~= Seq::new(LOG_BUFFER_SIZE as nat, |i: int| 0u8));
        r
    }

    pub fn is_wrapped(&self) -> (r: bool)
        ensures
            r == self.has_wrapped(),
    {
        self.wrapped
    }

    pub fn get_pos(&self) -> (r: usize)
        ensures
            r == self.pos(),
    {
        self.write_pos
    }

    pub fn get_buf(&self) -> (r: &[u8])
        ensures
            r@ == self.storage(),
    {
        self.buf.as_slice()
    }

    /// Writes one byte at the write position and advances it.
    fn push_byte(&mut self, b: u8)
        requires
            old(self).wf(),
        ensures
            final(self).wf(),
            final(self).ring() == old(self).ring().drop_first().push(b),
            final(self).pos() == (old(self).pos() + 1) % (LOG_BUFFER_SIZE as nat),
            final(self).has_wrapped() == (old(self).has_wrapped() || old(self).pos() + 1
                == LOG_BUFFER_SIZE),
            final(self).state() == byte_pushed(old(self).state(), b),
    {
        let ghost old_ring = self.ring();
        let pos = self.write_pos;
        self.buf.set(pos, b);
        if pos + 1 >= LOG_BUFFER_SIZE {
            self.write_pos = 0;
            self.wrapped = true;
        } else {
            self.write_pos = pos + 1;
            if !self.wrapped {
                assert forall|i: int| self.write_pos <= i < LOG_BUFFER_SIZE implies #[trigger] self.buf@[i] == 0u8 by {
                    assert(old(self).buf@[i] == 0u8);
                }
            }
        }
        assert(self.ring() =~= old_ring.drop_first().push(b));
    }

    /// Appends `data`; once the buffer is full the oldest bytes are dropped,
    /// so it holds the most recent `LOG_BUFFER_SIZE` bytes written.
    pub fn push_bytes(&mut self, data: &[u8])
        requires
            old(self).wf(),
        ensures
            final(self).wf(),
            final(self).contents() == last_n(old(self).contents() + data@, LOG_BUFFER_SIZE as nat),
            final(self).ring() == (old(self).ring() + data@).subrange(
                data@.len() as int,
                data@.len() + LOG_BUFFER_SIZE,
            ),
            final(self).pos() == (old(self).pos() + data@.len()) % (LOG_BUFFER_SIZE as nat),
            final(self).has_wrapped() == (old(self).has_wrapped() || old(self).pos() + data@.len()
                >= LOG_BUFFER_SIZE),
            final(self).state() == bytes_pushed(old(self).state(), data@),
    {
        let ghost s0 = self.state();
        let ghost r0 = self.ring();
        let ghost p0 = self.pos();
        let ghost w0 = self.has_wrapped();
        let ghost c0 = self.contents();
        proof {
            if !w0 {
                assert(r0 =~= Seq::new((LOG_BUFFER_SIZE - p0) as nat, |i: int| 0u8) + c0);
            }
        }
        let mut i: usize = 0;
        while i < data.len()
            invariant
                0 <= i <= data@.len(),
                r0.len() == LOG_BUFFER_SIZE,
                self.ring() == (r0 + data@.subrange(0, i as int)).subrange(
                    i as int,
                    i + LOG_BUFFER_SIZE,
                ),
                self.pos() == (p0 + i as nat) % (LOG_BUFFER_SIZE as nat),
                self.has_wrapped() == (w0 || p0 + i >= LOG_BUFFER_SIZE),
                p0 < LOG_BUFFER_SIZE,
                self.wf(),
                self.state() == bytes_pushed(s0, data@.subrange(0, i as int)),
            decreases data@.len() - i,
        {
            let b = data[i];
            self.push_byte(b);
            proof {
                lemma_add_mod_noop((p0 + i) as int, 1, LOG_BUFFER_SIZE as int);
                lemma_small_mod(1, LOG_BUFFER_SIZE as nat);
                lemma_mod_decreases((p0 + i) as nat, LOG_BUFFER_SIZE as nat);
                if p0 + i < LOG_BUFFER_SIZE {
                    lemma_small_mod((p0 + i) as nat, LOG_BUFFER_SIZE as nat);
                }
                assert(data@.subrange(0, i + 1) =~= data@.subrange(0, i as int).push(b));
                assert(data@.subrange(0, i + 1).drop_last() =~= data@.subrange(0, i as int));
                assert(self.ring() =~= (r0 + data@.subrange(0, i + 1)).subrange(
                    i + 1,
                    i + 1 + LOG_BUFFER_SIZE,
                ));
                assert((p0 + i as nat) % (LOG_BUFFER_SIZE as nat) + 1 == LOG_BUFFER_SIZE ==> p0 + i + 1
                    >= LOG_BUFFER_SIZE);
                assert(p0 + i + 1 >= LOG_BUFFER_SIZE && p0 + i < LOG_BUFFER_SIZE ==> (p0 + i as nat)
                    % (LOG_BUFFER_SIZE as nat) + 1 == LOG_BUFFER_SIZE);
            }
            i = i + 1;
        }
        proof {
            assert(data@.subrange(0, data@.len() as int) =~= data@);
            lemma_contents_after_push(r0, c0, p0, w0, data@, *self);
        }
    }

    /// Appends the UTF-8 bytes of `s`.
    pub fn push_str(&mut self, s: &str)
        requires
            old(self).wf(),
        ensures
            final(self).wf(),
            final(self).contents() == last_n(old(self).contents() + s.spec_bytes(), LOG_BUFFER_SIZE as nat),
            final(self).state() == bytes_pushed(old(self).state(), s.spec_bytes()),
    {
        self.push_bytes(s.as_bytes());
    }

    /// Copies the logged bytes, oldest first, into the front of `out`, as many
    /// as fit, and returns how many were copied.
    pub fn read_all(&self, out: &mut [u8]) -> (n: usize)
        requires
            self.wf(),
        ensures
            n == if self.contents().len() <= old(out)@.len() { self.contents().len() } else { old(out)@.len() },
            final(out)@.len() == old(out)@.len(),
            final(out)@.subrange(0, n as int) == self.contents().subrange(0, n as int),
            final(out)@.subrange(n as int, old(out)@.len() as int) == old(out)@.subrange(n as int, old(out)@.len() as int),
    {
        let ghost c = self.contents();
        let mut idx: usize = 0;
        if self.wrapped {
            let pos = self.write_pos;
            let mut k: usize = pos;
            while k < LOG_BUFFER_SIZE && idx < out.len()
                invariant
                    pos <= k <= LOG_BUFFER_SIZE,
                    idx == k - pos,
                    pos == self.pos(),
                    self.has_wrapped(),
                    c == self.contents(),
                    c.len() == LOG_BUFFER_SIZE,
                    self.storage().len() == LOG_BUFFER_SIZE,
                    out@.len() == old(out)@.len(),
                    idx <= out@.len(),
                    forall|j: int| 0 <= j < idx ==> #[trigger] out@[j] == c[j],
                    forall|j: int| idx <= j < out@.len() ==> #[trigger] out@[j] == old(out)@[j],
                decreases LOG_BUFFER_SIZE - k,
            {
                let b = self.buf[k];
                assert(b == c[idx as int]);
                out[idx] = b;
                idx = idx + 1;
                k = k + 1;
            }
            let mut k: usize = 0;
            while k < pos && idx < out.len()
                invariant
                    0 <= k <= pos,
                    pos < LOG_BUFFER_SIZE,
                    pos == self.pos(),
                    self.has_wrapped(),
                    c == self.contents(),
                    c.len() == LOG_BUFFER_SIZE,
                    self.storage().len() == LOG_BUFFER_SIZE,
                    (idx == LOG_BUFFER_SIZE - pos + k) || (idx == out@.len() && k == 0),
                    idx <= LOG_BUFFER_SIZE,
                    out@.len() == old(out)@.len(),
                    idx <= out@.len(),
                    forall|j: int| 0 <= j < idx ==> #[trigger] out@[j] == c[j],
                    forall|j: int| idx <= j < out@.len() ==> #[trigger] out@[j] == old(out)@[j],
                decreases pos - k,
            {
                let b = self.buf[k];
                assert(idx == LOG_BUFFER_SIZE - pos + k);
                assert(b == c[idx as int]);
                out[idx] = b;
                idx = idx + 1;
                k = k + 1;
            }
        } else {
            let pos = self.write_pos;
            while idx < pos && idx < out.len()
                invariant
                    0 <= idx <= pos,
                    pos == self.pos(),
                    !self.has_wrapped(),
                    c == self.contents(),
                    c.len() == pos,
                    self.storage().len() == LOG_BUFFER_SIZE,
                    pos < LOG_BUFFER_SIZE,
                    out@.len() == old(out)@.len(),
                    idx <= out@.len(),
                    forall|j: int| 0 <= j < idx ==> #[trigger] out@[j] == c[j],
                    forall|j: int| idx <= j < out@.len() ==> #[trigger] out@[j] == old(out)@[j],
                decreases pos - idx,
            {
                let b = self.buf[idx];
                out[idx] = b;
                idx = idx + 1;
            }
        }
        assert(out@.subrange(0, idx as int) =~= c.subrange(0, idx as int));
        assert(out@.subrange(idx as int, old(out)@.len() as int) =~= old(out)@.subrange(idx as int, old(out)@.len() as int));
        idx
    }

    /// Removes the most recent byte. Before the first wrap this shortens the
    /// log by one byte; after a wrap the ring keeps its length and a zero takes
    /// the place of the oldest byte.
    pub fn pop(&mut self)
        requires
            old(self).wf(),
        ensures
            final(self).wf(),
            !old(self).has_wrapped() ==> final(self).contents() == (if old(self).contents().len() > 0 {
                old(self).contents().drop_last()
            } else {
                old(self).contents()
            }),
            old(self).has_wrapped() ==> final(self).contents() == seq![0u8] + old(self).contents().drop_last(),
            final(self).has_wrapped() == old(self).has_wrapped(),
            final(self).pos() == if old(self).pos() > 0 {
                (old(self).pos() - 1) as nat
            } else if old(self).has_wrapped() {
                (LOG_BUFFER_SIZE - 1) as nat
            } else {
                0
            },
            final(self).state() == byte_popped(old(self).state()),
    {
        let ghost c0 = self.contents();
        let ghost r0 = self.ring();
        if self.write_pos > 0 {
            self.write_pos = self.write_pos - 1;
            let p = self.write_pos;
            self.buf.set(p, 0);
            proof {
                if !self.wrapped {
                    assert forall|i: int| self.write_pos <= i < LOG_BUFFER_SIZE implies #[trigger] self.buf@[i] == 0u8 by {
                        if i > p {
                            assert(old(self).buf@[i] == 0u8);
                        }
                    }
                    assert(self.contents() =~= c0.drop_last());
                } else {
                    assert(self.contents() =~= seq![0u8] + c0.drop_last());
                }
            }
        } else if self.wrapped {
            self.write_pos = LOG_BUFFER_SIZE - 1;
            self.buf.set(LOG_BUFFER_SIZE - 1, 0);
            assert(self.contents() =~= seq![0u8] + c0.drop_last());
        } else {
            assert(self.contents() =~= c0);
        }
    }

    /// Empties the buffer and zeroes its storage.
    pub fn clear(&mut self)
        requires
            old(self).wf(),
        ensures
            final(self).wf(),
            final(self).contents() == Seq::<u8>::empty(),
            final(self).pos() == 0,
            !final(self).has_wrapped(),
            final(self).storage() == Seq::new(LOG_BUFFER_SIZE as nat, |i: int| 0u8),
            final(self).state() == empty_log_state(),
    {
        let mut fresh: Vec<u8> = vec![0u8; LOG_BUFFER_SIZE];
        let mut i: usize = 0;
        while i < LOG_BUFFER_SIZE
            invariant
                fresh@.len() == LOG_BUFFER_SIZE,
                forall|j: int| 0 <= j < LOG_BUFFER_SIZE ==> #[trigger] fresh@[j] == 0u8,
            decreases LOG_BUFFER_SIZE - i,
        {
            i = i + 1;
        }
        *self = RingBuffer { buf: fresh, write_pos: 0, wrapped: false };
        assert(self.contents() =~= Seq::<u8>::empty());
        assert(self.buf@ =~= Seq::new(LOG_BUFFER_SIZE as nat, |i: int| 0u8));
    }
}

/// How the logged bytes follow from the ring after a push.
proof fn lemma_contents_after_push(r0: Seq<u8>, c0: Seq<u8>, p0: nat, w0: bool, data: Seq<u8>, rb: RingBuffer)
    requires
        r0.len() == LOG_BUFFER_SIZE,
        p0 < LOG_BUFFER_SIZE,
        w0 ==> c0 == r0,
        !w0 ==> c0.len() == p0 && r0 == Seq::new((LOG_BUFFER_SIZE - p0) as nat, |i: int| 0u8) + c0,
        rb.ring() == (r0 + data).subrange(data.len() as int, data.len() + LOG_BUFFER_SIZE),
        rb.pos() == (p0 + data.len()) % (LOG_BUFFER_SIZE as nat),
        rb.has_wrapped() == (w0 || p0 + data.len() >= LOG_BUFFER_SIZE),
        rb.storage().len() == LOG_BUFFER_SIZE,
        rb.pos() < LOG_BUFFER_SIZE,
    ensures
        rb.contents() == last_n(c0 + data, LOG_BUFFER_SIZE as nat),
{
    let n = LOG_BUFFER_SIZE as int;
    let d = data.len() as int;
    if w0 {
        assert(rb.contents() =~= last_n(c0 + data, LOG_BUFFER_SIZE as nat));
    } else if p0 + d >= n {
        let z = Seq::new((LOG_BUFFER_SIZE - p0) as nat, |i: int| 0u8);
        assert(r0 + data =~= z + (c0 + data));
        assert(rb.contents() =~= last_n(c0 + data, LOG_BUFFER_SIZE as nat));
    } else {
        assert(rb.pos() == p0 + d);
        let s = rb.storage();
        let pp = rb.pos() as int;
        assert(rb.ring() =~= s.subrange(pp, n) + s.subrange(0, pp));
        assert forall|j: int| 0 <= j < pp implies #[trigger] s[j] == (c0 + data)[j] by {
            assert(rb.ring()[n - pp + j] == s[j]);
            assert((r0 + data)[d + n - pp + j] == s[j]);
        }
        assert(rb.contents() =~= c0 + data);
    }
}

/// Writes the decimal digits of `n` into the buffer.
pub fn push_u32(buf: &mut RingBuffer, n: u32)
    requires
        old(buf).wf(),
    ensures
        final(buf).wf(),
        final(buf).contents() == last_n(old(buf).contents() + dec_digits(n as nat), LOG_BUFFER_SIZE as nat),
        final(buf).state() == bytes_pushed(old(buf).state(), dec_digits(n as nat)),
{
    let digits = crate::text::u64_decimal(n as u64);
    buf.push_bytes(digits.as_slice());
}

/// Writes `s` followed by a newline.
pub fn push_line(buf: &mut RingBuffer, s: &str)
    requires
        old(buf).wf(),
    ensures
        final(buf).wf(),
        final(buf).contents() == last_n(old(buf).contents() + s.spec_bytes() + seq![10u8], LOG_BUFFER_SIZE as nat),
        final(buf).state() == bytes_pushed(old(buf).state(), s.spec_bytes() + seq![10u8]),
{
    buf.push_str(s);
    let nl: [u8; 1] = [10u8];
    assert(nl@ =~= seq![10u8]);
    buf.push_bytes(&nl);
    proof {
        lemma_last_n_twice(old(buf).contents() + s.spec_bytes(), seq![10u8]);
        lemma_bytes_pushed_concat(old(buf).state(), s.spec_bytes(), seq![10u8]);
    }
}

/// The logged bytes of a buffer value, oldest first (see
/// `RingBuffer::contents`).
pub open spec fn state_contents(st: LogState) -> Seq<u8> {
    if st.2 {
        st.0.subrange(st.1 as int, LOG_BUFFER_SIZE as int) + st.0.subrange(0, st.1 as int)
    } else {
        st.0.subrange(0, st.1 as int)
    }
}

/// A buffer value a well-formed buffer can hold (see `RingBuffer::wf`).
pub open spec fn state_wf(st: LogState) -> bool {
    &&& st.0.len() == LOG_BUFFER_SIZE
    &&& st.1 < LOG_BUFFER_SIZE
    &&& !st.2 ==> forall|i: int| st.1 <= i < LOG_BUFFER_SIZE ==> #[trigger] st.0[i] == 0u8
}

proof fn lemma_byte_pushed_contents(st: LogState, b: u8)
    requires
        state_wf(st),
    ensures
        state_wf(byte_pushed(st, b)),
        state_contents(byte_pushed(st, b)) == last_n(state_contents(st).push(b), LOG_BUFFER_SIZE as nat),
{
    let n = LOG_BUFFER_SIZE as int;
    let p = st.1 as int;
    let s = st.0;
    let s2 = s.update(p, b);
    let c = state_contents(st);
    let nst = byte_pushed(st, b);
    if p + 1 < n {
        lemma_small_mod((p + 1) as nat, LOG_BUFFER_SIZE as nat);
        assert(nst.1 == p + 1);
        if st.2 {
            assert(state_contents(nst) =~= c.push(b).subrange(1, n + 1));
        } else {
            assert(state_contents(nst) =~= c.push(b));
        }
    } else {
        assert(nst.1 == 0);
        if st.2 {
            assert(state_contents(nst) =~= c.push(b).subrange(1, n + 1));
        } else {
            assert(state_contents(nst) =~= c.push(b));
        }
    }
}

proof fn lemma_bytes_pushed_contents(st: LogState, d: Seq<u8>)
    requires
        state_wf(st),
    ensures
        state_wf(bytes_pushed(st, d)),
        state_contents(bytes_pushed(st, d)) == last_n(state_contents(st) + d, LOG_BUFFER_SIZE as nat),
    decreases d.len(),
{
    if d.len() == 0 {
        assert(state_contents(st) + d =~= state_contents(st));
        assert(state_contents(st).len() <= LOG_BUFFER_SIZE);
    } else {
        let front = d.drop_last();
        lemma_bytes_pushed_contents(st, front);
        let mid = bytes_pushed(st, front);
        lemma_byte_pushed_contents(mid, d.last());
        lemma_last_n_twice(state_contents(st) + front, seq![d.last()]);
        assert(state_contents(mid).push(d.last()) =~= state_contents(mid) + seq![d.last()]);
        assert((state_contents(st) + front) + seq![d.last()] =~= state_contents(st) + d);
    }
}

/// The bytes written one call after another, each call's bytes in turn.
pub open spec fn pushed_in_turn(st: LogState, chunks: Seq<Seq<u8>>) -> LogState
    decreases chunks.len(),
{
    if chunks.len() == 0 {
        st
    } else {
        bytes_pushed(pushed_in_turn(st, chunks.drop_last()), chunks.last())
    }
}

/// All the chunks, one after another.
pub open spec fn concat_all(chunks: Seq<Seq<u8>>) -> Seq<u8>
    decreases chunks.len(),
{
    if chunks.len() == 0 {
        Seq::empty()
    } else {
        concat_all(chunks.drop_last()) + chunks.last()
    }
}

proof fn lemma_pushed_in_turn(st: LogState, chunks: Seq<Seq<u8>>)
    ensures
        pushed_in_turn(st, chunks) == bytes_pushed(st, concat_all(chunks)),
    decreases chunks.len(),
{
    if chunks.len() > 0 {
        lemma_pushed_in_turn(st, chunks.drop_last());
        lemma_bytes_pushed_concat(st, concat_all(chunks.drop_last()), chunks.last());
    }
}

/// What a log reads back: after a fresh (or cleared) buffer was written by
/// any sequence of calls whose bytes, one call after another, are `chunks`
/// (and no `pop`), the logged bytes that `read_all` copies out, oldest first,
/// are the last `LOG_BUFFER_SIZE` bytes written, in the order written.
pub proof fn reads_back_the_last_bytes_written(rb: RingBuffer, chunks: Seq<Seq<u8>>)
    requires
        rb.state() == pushed_in_turn(empty_log_state(), chunks),
    ensures
        rb.contents() == last_n(concat_all(chunks), LOG_BUFFER_SIZE as nat),
{
    let e = empty_log_state();
    lemma_pushed_in_turn(e, chunks);
    assert(state_contents(e) =~= Seq::<u8>::empty());
    lemma_bytes_pushed_contents(e, concat_all(chunks));
    assert(Seq::<u8>::empty() + concat_all(chunks) =~= concat_all(chunks));
    assert(rb.contents() =~= state_contents(rb.state()));
}

/// Trimming to the last `N` bytes twice is trimming once.
pub proof fn lemma_last_n_twice(a: Seq<u8>, b: Seq<u8>)
    ensures
        last_n(last_n(a, LOG_BUFFER_SIZE as nat) + b, LOG_BUFFER_SIZE as nat) == last_n(a + b, LOG_BUFFER_SIZE as nat),
{
    let n = LOG_BUFFER_SIZE as nat;
    assert(last_n(last_n(a, n) + b, n) =~= last_n(a + b, n));
}

} // verus!
