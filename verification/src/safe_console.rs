//! The log console: kernel messages go to the log buffer, which the console
//! shows while it is on screen.
use vstd::prelude::*;
use vstd::string::StringSliceAdditionalSpecFns;
use crate::ring_buffer::{RingBuffer, last_n, LOG_BUFFER_SIZE, bytes_pushed};

verus! {

pub struct SafeConsole;

impl SafeConsole {
    pub fn new() -> (c: Self) {
        SafeConsole
    }

    /// Appends `text` to the log buffer.
    pub fn write_str(&self, log: &mut RingBuffer, text: &str)
        requires
            old(log).wf(),
        ensures
            final(log).wf(),
            final(log).contents() == last_n(old(log).contents() + text.spec_bytes(), LOG_BUFFER_SIZE as nat),
            final(log).state() == bytes_pushed(old(log).state(), text.spec_bytes()),
    {
        log.push_str(text);
    }
}

} // verus!
