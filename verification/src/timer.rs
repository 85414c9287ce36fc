//! System time: the tick counter, the legacy PIT and the time-stamp counter.
use vstd::prelude::*;
use vstd::string::StringSliceAdditionalSpecFns;
use crate::ring_buffer::RingBuffer;
use crate::logger::{Logger, RtcTime};
use crate::text::dec_digits;
use crate::message::{logged, ok_logged, warn_logged, push_text, push_dec, empty_text, log_ok};

verus! {

/// Milliseconds per timer tick (the timer runs at 100 Hz).
pub const MS_PER_TICK: u64 = 10;

/// Input clock of the programmable interval timer, in Hz.
pub const PIT_BASE_FREQ: u32 = 1193182;

/// Counts timer interrupts since boot.
pub struct TickCounter {
    pub ticks: u64,
}

/// One more tick (the counter wraps around like an atomic add).
pub fn tick(counter: &mut TickCounter)
    ensures
        final(counter).ticks == (old(counter).ticks + 1) % 0x1_0000_0000_0000_0000,
{
    counter.ticks = counter.ticks.wrapping_add(1);
}

pub fn get_ticks(counter: &TickCounter) -> (t: u64)
    ensures
        t == counter.ticks,
{
    counter.ticks
}

/// Time since boot in milliseconds.
pub fn get_uptime_ms(counter: &TickCounter) -> (ms: u64)
    requires
        counter.ticks * MS_PER_TICK <= u64::MAX,
    ensures
        ms == counter.ticks * MS_PER_TICK,
{
    counter.ticks * MS_PER_TICK
}

/// Whether a sleep of `ms` milliseconds begun at tick `start_ticks` still has
/// to wait: it lasts `ms / 10` whole ticks.
pub fn sleep_ms(counter: &TickCounter, start_ticks: u64, ms: u64) -> (waiting: bool)
    requires
        start_ticks + ms / MS_PER_TICK <= u64::MAX,
    ensures
        waiting == (counter.ticks < start_ticks + ms / MS_PER_TICK),
{
    let ticks_to_wait = ms / MS_PER_TICK;
    counter.ticks < start_ticks + ticks_to_wait
}

/// The programmed rate of the PIT.
pub struct Pit {
    pub freq: u32,
}

impl Pit {
    /// Programs the PIT for `freq` Hz: records the rate and returns the 16-bit
    /// reload divisor to send to channel 0 (the quotient cut to 16 bits).
    pub fn init(&mut self, freq: u32) -> (divisor: u16)
        requires
            freq > 0,
        ensures
            final(self).freq == freq,
            divisor == (PIT_BASE_FREQ / freq) % 0x1_0000,
    {
        let q = PIT_BASE_FREQ / freq;
        let d = q as u16;
        assert(d == q % 0x1_0000) by (bit_vector)
            requires
                d == q as u16,
        ;
        self.freq = freq;
        d
    }

    /// The rate the PIT was programmed for (0 before it was).
    pub fn get_freq(&self) -> (f: u32)
        ensures
            f == self.freq,
    {
        self.freq
    }
}

/// The one-shot count for a PIT sleep of `ms` milliseconds, capped at the
/// largest 16-bit count.
pub fn prepare_sleep(ms: u32) -> (count: u16)
    requires
        (PIT_BASE_FREQ / 1000) * ms <= u32::MAX,
    ensures
        count == if (PIT_BASE_FREQ / 1000) * ms > 0xFFFF { 0xFFFF } else { (PIT_BASE_FREQ / 1000) * ms },
{
    let count = (PIT_BASE_FREQ / 1000) * ms;
    if count > 0xFFFF {
        0xFFFF
    } else {
        count as u16
    }
}

/// Time-stamp counter calibration: its rate and its value at boot.
pub struct Tsc {
    pub ticks_per_sec: u64,
    pub boot_tsc: u64,
}

/// Counter ticks since boot (none when the counter reads below its boot
/// value).
pub open spec fn tsc_since_boot(now_tsc: u64, boot_tsc: u64) -> int {
    if now_tsc >= boot_tsc { now_tsc - boot_tsc } else { 0 }
}

impl Tsc {
    /// Whether `get_uptime` can scale the part of a second at `now_tsc` to
    /// ten-thousandths without overflow.
    pub open spec fn uptime_fits(&self, now_tsc: u64) -> bool {
        self.ticks_per_sec > 0 ==> (tsc_since_boot(now_tsc, self.boot_tsc) % (self.ticks_per_sec as int)) * 10_000
            <= u64::MAX
    }

    /// Tests `uptime_fits`.
    pub fn uptime_in_range(&self, now_tsc: u64) -> (r: bool)
        ensures
            r == self.uptime_fits(now_tsc),
    {
        let freq = self.ticks_per_sec;
        if freq == 0 {
            return true;
        }
        let remainder = now_tsc.saturating_sub(self.boot_tsc) % freq;
        remainder.checked_mul(10_000).is_some()
    }

    /// Time since boot as whole seconds and ten-thousandths of a second;
    /// zero while the rate is unknown.
    pub fn get_uptime(&self, now_tsc: u64) -> (r: (u64, u64))
        requires
            self.uptime_fits(now_tsc),
        ensures
            self.ticks_per_sec == 0 ==> r == (0u64, 0u64),
            self.ticks_per_sec > 0 ==> ({
                let total = tsc_since_boot(now_tsc, self.boot_tsc);
                &&& r.0 == total / (self.ticks_per_sec as int)
                &&& r.1 == (total % (self.ticks_per_sec as int)) * 10_000 / (self.ticks_per_sec as int)
            }),
    {
        let freq = self.ticks_per_sec;
        if freq == 0 {
            return (0, 0);
        }
        let total_tsc = now_tsc.saturating_sub(self.boot_tsc);
        let sec = total_tsc / freq;
        let remainder = total_tsc % freq;
        let frac = (remainder * 10_000) / freq;
        (sec, frac)
    }

    pub fn get_tsc_frequency(&self) -> (f: u64)
        ensures
            f == self.ticks_per_sec,
    {
        self.ticks_per_sec
    }
}

/// The TSC rate measured over `wait_ticks` timer ticks at `pit_hz`: the
/// elapsed count scaled to one second, or the raw count when the timer rate
/// is unknown.
pub fn tsc_ticks_per_sec(tsc_elapsed: u64, pit_hz: u64, wait_ticks: u64) -> (r: u64)
    requires
        wait_ticks > 0,
        tsc_elapsed * pit_hz <= u64::MAX,
    ensures
        pit_hz > 0 ==> r == (tsc_elapsed * pit_hz) / (wait_ticks as int),
        pit_hz == 0 ==> r == tsc_elapsed,
{
    if pit_hz > 0 {
        (tsc_elapsed * pit_hz) / wait_ticks
    } else {
        tsc_elapsed
    }
}

/// Timer ticks the TSC is measured over.
pub const CALIBRATION_TICKS: u64 = 100;

/// Spins to wait for the first timer tick before giving up on calibration.
pub const CALIBRATION_SPIN_LIMIT: u64 = 100_000_000;

/// What the wait for the first timer tick of a calibration does next.
#[derive(Debug, Clone, Copy, PartialEq, Eq, Structural)]
pub enum TickWait {
    /// The tick came: measuring starts.
    Ticked,
    /// Poll again; the spins counted so far.
    Spin(u64),
    /// Too many spins: calibration gives up.
    TimedOut,
}

/// One poll of the wait for the first timer tick, `spins` polls having
/// failed so far: once the tick has moved, measuring starts; otherwise one
/// more spin is counted, and past `CALIBRATION_SPIN_LIMIT` spins the wait
/// gives up.
pub fn calibration_wait_step(spins: u64, ticked: bool) -> (r: TickWait)
    requires
        spins <= CALIBRATION_SPIN_LIMIT,
    ensures
        ticked ==> r == TickWait::Ticked,
        !ticked && spins + 1 > CALIBRATION_SPIN_LIMIT ==> r == TickWait::TimedOut,
        !ticked && spins + 1 <= CALIBRATION_SPIN_LIMIT ==> r == TickWait::Spin((spins + 1) as u64),
{
    if ticked {
        return TickWait::Ticked;
    }
    let n = spins + 1;
    if n > CALIBRATION_SPIN_LIMIT {
        TickWait::TimedOut
    } else {
        TickWait::Spin(n)
    }
}

/// The TSC rate assumed when calibration times out: 2 GHz.
pub const FALLBACK_TSC_HZ: u64 = 2_000_000_000;

pub open spec fn wait_logged(log: Seq<u8>, time: RtcTime, msg: Seq<u8>) -> Seq<u8> {
    logged(log, time, " WAIT ".spec_bytes(), "^&e".spec_bytes(), msg)
}

/// The line that reports a calibration.
pub open spec fn calibrated_msg(ticks_per_sec: u64, elapsed: u64, pit_hz: u64) -> Seq<u8> {
    "TSC: Calibrated! Freq: ^&f".spec_bytes() + dec_digits((ticks_per_sec / 1_000_000) as nat)
        + " MHz ^&7(Elapsed TSC: ^&f".spec_bytes() + dec_digits(elapsed as nat) + ", ^&7PIT: ^&f".spec_bytes()
        + dec_digits(pit_hz as nat) + " Hz^&7)".spec_bytes()
}

impl Tsc {
    /// Starts calibrating: records the counter at boot and says so.
    pub fn begin_calibration(&mut self, now_tsc: u64, log: &mut RingBuffer, time: RtcTime)
        requires
            old(log).wf(),
        ensures
            final(log).wf(),
            final(log).contents() == wait_logged(
                old(log).contents(),
                time,
                "TSC: Calibration started...".spec_bytes(),
            ),
            final(self).boot_tsc == now_tsc,
            final(self).ticks_per_sec == old(self).ticks_per_sec,
    {
        Logger::new().wait(log, time, "TSC: Calibration started...");
        self.boot_tsc = now_tsc;
    }

    /// Gives up waiting for the timer: assumes 2 GHz and warns.
    pub fn calibration_timed_out(&mut self, log: &mut RingBuffer, time: RtcTime)
        requires
            old(log).wf(),
        ensures
            final(log).wf(),
            final(log).contents() == warn_logged(
                old(log).contents(),
                time,
                "TSC: Calibration timeout! Using fallback ^&f2GHz.".spec_bytes(),
            ),
            final(self).ticks_per_sec == FALLBACK_TSC_HZ,
            final(self).boot_tsc == old(self).boot_tsc,
    {
        Logger::new().warn(log, time, "TSC: Calibration timeout! Using fallback ^&f2GHz.");
        self.ticks_per_sec = FALLBACK_TSC_HZ;
    }

    /// Ends calibrating with the counter read before and after
    /// `CALIBRATION_TICKS` timer ticks at `pit_hz`: the rate is the count
    /// scaled to a second, reported in MHz; with the timer rate unknown, the
    /// raw count is kept and nothing is reported.
    pub fn finish_calibration(&mut self, tsc_start: u64, tsc_end: u64, pit_hz: u64, log: &mut RingBuffer, time: RtcTime)
        requires
            old(log).wf(),
            tsc_start <= tsc_end,
            (tsc_end - tsc_start) * pit_hz <= u64::MAX,
        ensures
            final(log).wf(),
            final(self).boot_tsc == old(self).boot_tsc,
            pit_hz > 0 ==> final(self).ticks_per_sec == (tsc_end - tsc_start) * pit_hz / (CALIBRATION_TICKS as int)
                && final(log).contents() == ok_logged(
                old(log).contents(),
                time,
                calibrated_msg(final(self).ticks_per_sec, (tsc_end - tsc_start) as u64, pit_hz),
            ),
            pit_hz == 0 ==> final(self).ticks_per_sec == tsc_end - tsc_start && final(log).contents() == old(
                log,
            ).contents(),
    {
        let elapsed = tsc_end - tsc_start;
        let tps = tsc_ticks_per_sec(elapsed, pit_hz, CALIBRATION_TICKS);
        self.ticks_per_sec = tps;
        if pit_hz > 0 {
            let mut m = empty_text();
            push_text(&mut m, "TSC: Calibrated! Freq: ^&f");
            push_dec(&mut m, tps / 1_000_000);
            push_text(&mut m, " MHz ^&7(Elapsed TSC: ^&f");
            push_dec(&mut m, elapsed);
            push_text(&mut m, ", ^&7PIT: ^&f");
            push_dec(&mut m, pit_hz);
            push_text(&mut m, " Hz^&7)");
            assert(m@ =~= calibrated_msg(tps, elapsed, pit_hz));
            log_ok(log, time, &m);
        }
    }
}

/// Reports the PIT: its rate, or a warning while it is unknown.
pub fn pit_report(freq: u32, log: &mut RingBuffer, time: RtcTime)
    requires
        old(log).wf(),
    ensures
        final(log).wf(),
        freq == 0 ==> final(log).contents() == warn_logged(
            old(log).contents(),
            time,
            "PIT Timer status: initialized (unknown frequency)".spec_bytes(),
        ),
        freq > 0 ==> final(log).contents() == ok_logged(
            old(log).contents(),
            time,
            "PIT Timer initialized at ^&f".spec_bytes() + dec_digits(freq as nat) + " Hz".spec_bytes(),
        ),
{
    if freq == 0 {
        Logger::new().warn(log, time, "PIT Timer status: initialized (unknown frequency)");
    } else {
        let mut m = empty_text();
        push_text(&mut m, "PIT Timer initialized at ^&f");
        push_dec(&mut m, freq as u64);
        push_text(&mut m, " Hz");
        log_ok(log, time, &m);
    }
}

/// Reports the local APIC timer, calibrated against the PIT at `freq` Hz.
pub fn lapic_timer_report(freq: u32, log: &mut RingBuffer, time: RtcTime)
    requires
        old(log).wf(),
    ensures
        final(log).wf(),
        freq == 0 ==> final(log).contents() == warn_logged(
            old(log).contents(),
            time,
            "LAPIC Timer status: initialized (unknown frequency)".spec_bytes(),
        ),
        freq > 0 ==> final(log).contents() == ok_logged(
            old(log).contents(),
            time,
            "LAPIC Timer calibrated via PIT and initialized at ^&f".spec_bytes() + dec_digits(freq as nat)
                + " Hz".spec_bytes(),
        ),
{
    if freq == 0 {
        Logger::new().warn(log, time, "LAPIC Timer status: initialized (unknown frequency)");
    } else {
        let mut m = empty_text();
        push_text(&mut m, "LAPIC Timer calibrated via PIT and initialized at ^&f");
        push_dec(&mut m, freq as u64);
        push_text(&mut m, " Hz");
        log_ok(log, time, &m);
    }
}

/// The local APIC timer's count for 10 ms: how far the counter, loaded
/// with all ones, ran down while the PIT waited 10 ms.
pub fn lapic_ticks_in_10ms(current_count: u32) -> (t: u32)
    ensures
        t == 0xFFFF_FFFF - current_count,
{
    0xFFFF_FFFF - current_count
}

} // verus!
