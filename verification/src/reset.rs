//! Resetting the machine through the PS/2 keyboard controller: wait, for a
//! bounded number of polls, until the controller takes commands, then send
//! the reset command.
use vstd::prelude::*;

verus! {

/// The keyboard controller's status and command port.
pub const KBC_PORT: u16 = 0x64;

/// Status bit: the controller's input buffer is full (it takes no command).
pub const KBC_INPUT_FULL: u8 = 0x02;

/// The command that pulses the reset line.
pub const KBC_RESET: u8 = 0xFE;

/// Polls of the status before the reset command is sent anyway.
pub const RESET_POLLS: u32 = 0xFFFF;

/// What the wait before the reset command does next.
#[derive(Debug, Clone, Copy, PartialEq, Eq, Structural)]
pub enum ResetWait {
    /// Poll again; the polls left.
    Poll(u32),
    /// Send `KBC_RESET` to `KBC_PORT`.
    Send,
}

/// One look at the controller's `status` with `remaining` polls left: while
/// polls are left and its input buffer is full, wait (one poll fewer);
/// otherwise send the reset.
pub fn reset_wait_step(remaining: u32, status: u8) -> (r: ResetWait)
    ensures
        remaining > 0 && status & KBC_INPUT_FULL != 0 ==> r == ResetWait::Poll((remaining - 1) as u32),
        !(remaining > 0 && status & KBC_INPUT_FULL != 0) ==> r == ResetWait::Send,
{
    if remaining > 0 && status & KBC_INPUT_FULL != 0 {
        ResetWait::Poll(remaining - 1)
    } else {
        ResetWait::Send
    }
}

} // verus!
