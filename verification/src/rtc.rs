//! Real-time clock: decoding the CMOS time registers.
use vstd::prelude::*;

verus! {

/// CMOS register holding the seconds.
pub const RTC_SECONDS: u8 = 0x0;
/// CMOS register holding the minutes.
pub const RTC_MINUTES: u8 = 0x2;
/// CMOS register holding the hours.
pub const RTC_HOURS: u8 = 0x4;

/// A binary-coded decimal byte as a number: high nibble tens, low nibble
/// units.
pub fn bcd_to_bin(value: u8) -> (r: u8)
    ensures
        r == (value / 16) * 10 + value % 16,
{
    let hi = (value & 0xF0) >> 4u8;
    let lo = value & 0x0F;
    assert(hi == value / 16 && lo == value % 16) by (bit_vector)
        requires
            hi == (value & 0xF0) >> 4u8,
            lo == value & 0x0F,
    ;
    hi * 10 + lo
}

/// The time of day, `(hour, minute, second)`, from the raw BCD contents of
/// the seconds, minutes and hours registers.
pub fn read_rtc_time(seconds_reg: u8, minutes_reg: u8, hours_reg: u8) -> (t: (u8, u8, u8))
    ensures
        t.0 == (hours_reg / 16) * 10 + hours_reg % 16,
        t.1 == (minutes_reg / 16) * 10 + minutes_reg % 16,
        t.2 == (seconds_reg / 16) * 10 + seconds_reg % 16,
{
    let sec = bcd_to_bin(seconds_reg);
    let min = bcd_to_bin(minutes_reg);
    let hour = bcd_to_bin(hours_reg);
    (hour, min, sec)
}

} // verus!
