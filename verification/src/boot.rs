//! Boot phases and the welcome banner.
use vstd::prelude::*;
use vstd::string::StringSliceAdditionalSpecFns;
use vstd::utf8::valid_utf8_concat;
use crate::ring_buffer::RingBuffer;
use crate::logger::{Logger, RtcTime, appended, logged_bytes};
use crate::text::{push_str_bytes, bytes_as_str, lemma_str_bytes_valid};

verus! {

#[derive(Copy, Clone, Debug, Eq, PartialEq, Structural)]
pub enum BootPhase {
    Early,
    EarlyCpuInit,
    MemoryInit,
    AcpiInit,
    CpuInit,
    VfsInit,
    SystunnelInit,
    DriversInit,
    FsInit,
    UserspaceInit,
    Running,
    Panic,
}

/// The name a phase is logged under.
pub open spec fn phase_name_bytes(p: BootPhase) -> Seq<u8> {
    match p {
        BootPhase::Early => "Early".spec_bytes(),
        BootPhase::EarlyCpuInit => "EarlyCpuInit".spec_bytes(),
        BootPhase::MemoryInit => "MemoryInit".spec_bytes(),
        BootPhase::AcpiInit => "AcpiInit".spec_bytes(),
        BootPhase::CpuInit => "CpuInit".spec_bytes(),
        BootPhase::VfsInit => "VfsInit".spec_bytes(),
        BootPhase::SystunnelInit => "SystunnelInit".spec_bytes(),
        BootPhase::DriversInit => "DriversInit".spec_bytes(),
        BootPhase::FsInit => "FsInit".spec_bytes(),
        BootPhase::UserspaceInit => "UserspaceInit".spec_bytes(),
        BootPhase::Running => "Running".spec_bytes(),
        BootPhase::Panic => "Panic".spec_bytes(),
    }
}

pub fn phase_name(p: BootPhase) -> (s: &'static str)
    ensures
        s.spec_bytes() == phase_name_bytes(p),
{
    match p {
        BootPhase::Early => "Early",
        BootPhase::EarlyCpuInit => "EarlyCpuInit",
        BootPhase::MemoryInit => "MemoryInit",
        BootPhase::AcpiInit => "AcpiInit",
        BootPhase::CpuInit => "CpuInit",
        BootPhase::VfsInit => "VfsInit",
        BootPhase::SystunnelInit => "SystunnelInit",
        BootPhase::DriversInit => "DriversInit",
        BootPhase::FsInit => "FsInit",
        BootPhase::UserspaceInit => "UserspaceInit",
        BootPhase::Running => "Running",
        BootPhase::Panic => "Panic",
    }
}

/// The message logged when the boot reaches phase `p`.
pub open spec fn phase_message(p: BootPhase) -> Seq<u8> {
    "BootPhase changed: ^&f".spec_bytes() + phase_name_bytes(p)
}

/// Logs the change to phase `new` at level OK.
pub fn on_phase_changed(old_phase: BootPhase, new: BootPhase, log: &mut RingBuffer, time: RtcTime)
    requires
        old(log).wf(),
    ensures
        final(log).wf(),
        final(log).contents() == appended(old(log).contents(), logged_bytes(time, "  OK  ".spec_bytes(), "^&2".spec_bytes(), phase_message(new), true, true)),
{
    let mut buf: Vec<u8> = Vec::new();
    push_str_bytes(&mut buf, "BootPhase changed: ^&f");
    let name = phase_name(new);
    push_str_bytes(&mut buf, name);
    proof {
        lemma_str_bytes_valid("BootPhase changed: ^&f");
        lemma_str_bytes_valid(name);
        valid_utf8_concat("BootPhase changed: ^&f".spec_bytes(), name.spec_bytes());
        assert(buf@ =~= phase_message(new));
    }
    let msg = bytes_as_str(buf.as_slice());
    Logger::new().ok(log, time, msg);
}

/// Moves the boot to phase `new`, logging the change when the phase differs.
pub fn set_phase(current: &mut BootPhase, new: BootPhase, log: &mut RingBuffer, time: RtcTime)
    requires
        old(log).wf(),
    ensures
        *final(current) == new,
        final(log).wf(),
        *old(current) != new ==> final(log).contents() == appended(old(log).contents(), logged_bytes(time, "  OK  ".spec_bytes(), "^&2".spec_bytes(), phase_message(new), true, true)),
        *old(current) == new ==> final(log).contents() == old(log).contents(),
{
    let old_phase = *current;
    *current = new;
    if old_phase != new {
        on_phase_changed(old_phase, new, log, time);
    }
}

pub fn get_phase(current: &BootPhase) -> (p: BootPhase)
    ensures
        p == *current,
{
    *current
}

/// The banner printed at boot.
pub const LOGO: &'static str = "^&7________                    ____  ___\n\\______ \\   ____   ____ ______\\   \\/  /\n |    |  \\_/ __ \\_/ __ \\\\____ \\\\   / \n |    `   \\  ___/\\\\  ___/|  |_> >     \\\n/_______  /\\___  >\\___  >  __/___/\\  \\\n        \\/     \\/     \\/|__|        \\_/";

/// Prints the banner and two blank lines, unformatted.
pub fn show_welcome(log: &mut RingBuffer)
    requires
        old(log).wf(),
    ensures
        final(log).wf(),
        final(log).contents() == appended(
            appended(old(log).contents(), logged_bytes(RtcTime { hour: 0, minute: 0, second: 0 }, "".spec_bytes(), "".spec_bytes(), LOGO.spec_bytes(), false, false)),
            logged_bytes(RtcTime { hour: 0, minute: 0, second: 0 }, "".spec_bytes(), "".spec_bytes(), "\n\n".spec_bytes(), false, false),
        ),
{
    let logger = Logger::new();
    logger.raw(log, LOGO);
    logger.raw(log, "\n\n");
}

} // verus!
