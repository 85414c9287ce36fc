//! The system tunnel: the call interface of user programs. A call names its
//! service in `rax` and passes arguments in `rdi` and `rsi`; the answer goes
//! back in `rax`.
use vstd::prelude::*;
use vstd::string::StringSliceAdditionalSpecFns;
use vstd::utf8::{valid_utf8, valid_utf8_concat, decode_utf8};
use vstd::string::StrSliceExecFns;
use crate::ring_buffer::{RingBuffer, LogState};
use crate::vfs::{VfsNode, NodeOps, first_named, lists_module, lemma_first_named_bound, VfsOperations};
use crate::text::str_from_utf8;
use crate::logger::{Logger, RtcTime};
use crate::text::{lower_hex_digits, dec_digits, lemma_ascii_valid_utf8};
use crate::message::{
    hex16, logged_state, error_state, warn_state, debug_state, tunnel_state, error_logged, warn_logged, debug_logged, tunnel_logged, push_text, push_hex, push_hex16, push_dec,
    empty_text, log_error, log_warn, log_debug,
};

verus! {

/// ABI version of the call interface.
pub const SYSTUNNEL_VERSION: &'static str = "v0.0.6";

/// Highest address of user space.
pub const USER_SPACE_LIMIT: u64 = 0x0000_7FFF_FFFF_FFFF;

/// The code segment selector of user mode.
pub const USER_CODE_SELECTOR: u64 = 0x1B;

/// Instruction addresses below this are reported as suspicious.
pub const LOW_RIP_LIMIT: u64 = 0x1000;

/// Errors a call can end with.
#[derive(Debug, Clone, Copy, PartialEq, Eq, Structural)]
pub enum TunnelError {
    Success,
    UnknownError,
    InvalidPointer,
    AccessViolation,
    NullPointer,
    FileNotFound,
    NotImplemented,
}

/// The number that stands for an error in `rax`.
pub open spec fn error_code(e: TunnelError) -> u64 {
    match e {
        TunnelError::Success => 0,
        TunnelError::UnknownError => 1,
        TunnelError::InvalidPointer => 2,
        TunnelError::AccessViolation => 3,
        TunnelError::NullPointer => 4,
        TunnelError::FileNotFound => 5,
        TunnelError::NotImplemented => 404,
    }
}

impl From<TunnelError> for u64 {
    fn from(err: TunnelError) -> (r: u64) {
        match err {
            TunnelError::Success => 0,
            TunnelError::UnknownError => 1,
            TunnelError::InvalidPointer => 2,
            TunnelError::AccessViolation => 3,
            TunnelError::NullPointer => 4,
            TunnelError::FileNotFound => 5,
            TunnelError::NotImplemented => 404,
        }
    }
}

impl vstd::std_specs::convert::FromSpecImpl<TunnelError> for u64 {
    open spec fn obeys_from_spec() -> bool {
        true
    }

    open spec fn from_spec(v: TunnelError) -> u64 {
        error_code(v)
    }
}

/// The services a call can name.
#[derive(Debug, Clone, Copy, PartialEq, Eq, Structural)]
pub enum TunnelID {
    Ping,
    Exit,
    Log,
    Execute,
    VfsExists,
    VfsOpen,
    VfsRead,
    Unknown,
}

/// The service a call number names.
pub open spec fn tunnel_id(id: u64) -> TunnelID {
    if id == 0 {
        TunnelID::Ping
    } else if id == 1 {
        TunnelID::Exit
    } else if id == 2 {
        TunnelID::Log
    } else if id == 9 {
        TunnelID::Execute
    } else if id == 10 {
        TunnelID::VfsExists
    } else if id == 11 {
        TunnelID::VfsOpen
    } else if id == 12 {
        TunnelID::VfsRead
    } else {
        TunnelID::Unknown
    }
}

impl From<u64> for TunnelID {
    fn from(id: u64) -> (r: TunnelID) {
        if id == 0 {
            TunnelID::Ping
        } else if id == 1 {
            TunnelID::Exit
        } else if id == 2 {
            TunnelID::Log
        } else if id == 9 {
            TunnelID::Execute
        } else if id == 10 {
            TunnelID::VfsExists
        } else if id == 11 {
            TunnelID::VfsOpen
        } else if id == 12 {
            TunnelID::VfsRead
        } else {
            TunnelID::Unknown
        }
    }
}

impl vstd::std_specs::convert::FromSpecImpl<u64> for TunnelID {
    open spec fn obeys_from_spec() -> bool {
        true
    }

    open spec fn from_spec(v: u64) -> TunnelID {
        tunnel_id(v)
    }
}

/// The registers of the calling program, as the entry code saved them, and
/// the frame the processor pushed (where the program resumes).
#[derive(Debug, Clone, Copy, PartialEq, Eq, Structural)]
pub struct SystunnelFrame {
    pub user_ds: u64,
    pub rax: u64,
    pub rbx: u64,
    pub rcx: u64,
    pub rdx: u64,
    pub rsi: u64,
    pub rdi: u64,
    pub rbp: u64,
    pub r8: u64,
    pub r9: u64,
    pub r10: u64,
    pub r11: u64,
    pub r12: u64,
    pub r13: u64,
    pub r14: u64,
    pub r15: u64,
    pub rip: u64,
    pub cs: u64,
    pub rflags: u64,
    pub rsp: u64,
    pub ss: u64,
}

/// Whether the buffer of `len` bytes at `ptr` leaves user space: it starts
/// past the last user address or its end passes the first kernel address.
pub open spec fn leaves_user_space(ptr: u64, len: u64) -> bool {
    ptr > USER_SPACE_LIMIT || ptr + len > USER_SPACE_LIMIT + 1
}

/// What `check_buffer` says of a user buffer: the end address must fit in
/// 64 bits, the whole buffer must lie in user space and must not be null.
pub open spec fn buffer_check(ptr: u64, len: u64) -> Result<(), TunnelError> {
    if ptr + len > u64::MAX {
        Err(TunnelError::InvalidPointer)
    } else if leaves_user_space(ptr, len) {
        Err(TunnelError::AccessViolation)
    } else if ptr == 0 {
        Err(TunnelError::NullPointer)
    } else {
        Ok(())
    }
}

pub open spec fn access_violation_msg(ptr: u64) -> Seq<u8> {
    "VALIDATE FAIL: Access Violation! Ptr: 0x".spec_bytes() + hex16(ptr) + ", Limit: 0x".spec_bytes() + hex16(
        USER_SPACE_LIMIT,
    )
}

/// The log after `check_buffer`: the access violation and the null pointer
/// are reported.
pub open spec fn buffer_check_log(log: Seq<u8>, time: RtcTime, ptr: u64, len: u64) -> Seq<u8> {
    if ptr + len > u64::MAX {
        log
    } else if leaves_user_space(ptr, len) {
        error_logged(log, time, access_violation_msg(ptr))
    } else if ptr == 0 {
        error_logged(log, time, "VALIDATE FAIL: Null Pointer!".spec_bytes())
    } else {
        log
    }
}

/// The whole log buffer after `check_buffer`.
pub open spec fn buffer_check_state(st: LogState, time: RtcTime, ptr: u64, len: u64) -> LogState {
    if ptr + len > u64::MAX {
        st
    } else if leaves_user_space(ptr, len) {
        logged_state(st, time, "FAILED".spec_bytes(), "^&4".spec_bytes(), access_violation_msg(ptr))
    } else if ptr == 0 {
        logged_state(st, time, "FAILED".spec_bytes(), "^&4".spec_bytes(), "VALIDATE FAIL: Null Pointer!".spec_bytes())
    } else {
        st
    }
}

/// Checks user buffers handed to calls.
pub struct Validator;

impl Validator {
    /// Whether a program may hand over the buffer of `len` bytes at `ptr`.
    pub fn check_buffer(log: &mut RingBuffer, time: RtcTime, ptr: u64, len: u64) -> (r: Result<(), TunnelError>)
        requires
            old(log).wf(),
        ensures
            final(log).wf(),
            r == buffer_check(ptr, len),
            final(log).contents() == buffer_check_log(old(log).contents(), time, ptr, len),
            final(log).state() == buffer_check_state(old(log).state(), time, ptr, len),
    {
        let end_addr = match ptr.checked_add(len) {
            Some(e) => e,
            None => {
                return Err(TunnelError::InvalidPointer);
            },
        };
        if ptr > USER_SPACE_LIMIT || end_addr > USER_SPACE_LIMIT + 1 {
            let mut msg: Vec<u8> = Vec::new();
            proof {
                assert(valid_utf8(msg@)) by {
                    lemma_ascii_valid_utf8(msg@);
                }
            }
            push_text(&mut msg, "VALIDATE FAIL: Access Violation! Ptr: 0x");
            push_hex16(&mut msg, ptr);
            push_text(&mut msg, ", Limit: 0x");
            push_hex16(&mut msg, USER_SPACE_LIMIT);
            assert(msg@ =~= access_violation_msg(ptr));
            log_error(log, time, &msg);
            return Err(TunnelError::AccessViolation);
        }
        if ptr == 0 {
            Logger::new().error(log, time, "VALIDATE FAIL: Null Pointer!");
            return Err(TunnelError::NullPointer);
        }
        Ok(())
    }
}

/// What the caller must do next for a call.
#[derive(Debug, Clone, Copy, PartialEq, Eq, Structural)]
pub enum TunnelStep {
    /// The call is answered; the answer is in `rax`.
    Done(u64),
    /// Read `len` bytes of the program's memory at `ptr` (the first value)
    /// and hand them to `continue_call`.
    ReadUser(u64, u64),
    /// Leave for the recovery environment.
    Recovery,
}

pub open spec fn cs_msg(cs: u64) -> Seq<u8> {
    "CRITICAL: Segment Corruption! CS is 0x".spec_bytes() + lower_hex_digits(cs as nat) + " instead of 0x1B".spec_bytes()
}

pub open spec fn rip_msg(rip: u64) -> Seq<u8> {
    "CRITICAL: Null or Low RIP! RIP is 0x".spec_bytes() + lower_hex_digits(rip as nat)
}

pub open spec fn iretq_msg(f: SystunnelFrame) -> Seq<u8> {
    "IRETQ PREP -> RIP: 0x".spec_bytes() + lower_hex_digits(f.rip as nat) + ", CS: 0x".spec_bytes()
        + lower_hex_digits(f.cs as nat) + ", RSP: 0x".spec_bytes() + lower_hex_digits(f.rsp as nat)
        + ", SS: 0x".spec_bytes() + lower_hex_digits(f.ss as nat)
}

pub open spec fn exit_msg(status: u64) -> Seq<u8> {
    "PROCESS: Exit triggered with code ".spec_bytes() + dec_digits(status as nat)
}

/// The log after the checks of the frame every call starts with: a code
/// segment other than user mode's and a low instruction address are
/// reported, and the frame is shown before `Execute` and `VfsExists`.
pub open spec fn frame_report(log: Seq<u8>, time: RtcTime, f: SystunnelFrame) -> Seq<u8> {
    let id = tunnel_id(f.rax);
    let l1 = if f.cs != USER_CODE_SELECTOR {
        error_logged(log, time, cs_msg(f.cs))
    } else {
        log
    };
    let l2 = if f.rip < LOW_RIP_LIMIT {
        error_logged(l1, time, rip_msg(f.rip))
    } else {
        l1
    };
    if id == TunnelID::Execute || id == TunnelID::VfsExists {
        debug_logged(l2, time, iretq_msg(f))
    } else {
        l2
    }
}

/// The whole log buffer after the frame checks (see `frame_report`).
pub open spec fn frame_report_state(st: LogState, time: RtcTime, f: SystunnelFrame) -> LogState {
    let id = tunnel_id(f.rax);
    let s1 = if f.cs != USER_CODE_SELECTOR {
        error_state(st, time, cs_msg(f.cs))
    } else {
        st
    };
    let s2 = if f.rip < LOW_RIP_LIMIT {
        error_state(s1, time, rip_msg(f.rip))
    } else {
        s1
    };
    if id == TunnelID::Execute || id == TunnelID::VfsExists {
        debug_state(s2, time, iretq_msg(f))
    } else {
        s2
    }
}

/// The whole log buffer after `begin_call` (see `begin_outcome`).
pub open spec fn begin_log_state(f: SystunnelFrame, st: LogState, time: RtcTime) -> LogState {
    let s = frame_report_state(st, time, f);
    match tunnel_id(f.rax) {
        TunnelID::Exit => warn_state(s, time, exit_msg(f.rdi)),
        TunnelID::Log => buffer_check_state(s, time, f.rdi, f.rsi),
        TunnelID::VfsExists => buffer_check_state(s, time, f.rdi, f.rsi),
        TunnelID::Ping => s,
        TunnelID::Execute => s,
        _ => warn_state(s, time, "SYSTUNNEL: Unknown Call ID requested.".spec_bytes()),
    }
}

/// What a call does before any of the program's memory is read: the log
/// after it, and the next step.
pub open spec fn begin_outcome(f: SystunnelFrame, log: Seq<u8>, time: RtcTime) -> (Seq<u8>, TunnelStep) {
    let l = frame_report(log, time, f);
    match tunnel_id(f.rax) {
        TunnelID::Ping => (l, TunnelStep::Done(0)),
        TunnelID::Exit => {
            let l2 = warn_logged(l, time, exit_msg(f.rdi));
            if f.rdi != 0 {
                (l2, TunnelStep::Recovery)
            } else {
                (l2, TunnelStep::Done(0))
            }
        },
        TunnelID::Log => {
            let l2 = buffer_check_log(l, time, f.rdi, f.rsi);
            match buffer_check(f.rdi, f.rsi) {
                Ok(_) => (l2, TunnelStep::ReadUser(f.rdi, f.rsi)),
                Err(e) => (l2, TunnelStep::Done(error_code(e))),
            }
        },
        TunnelID::Execute => (l, TunnelStep::ReadUser(f.rdi, f.rsi)),
        TunnelID::VfsExists => {
            let l2 = buffer_check_log(l, time, f.rdi, f.rsi);
            match buffer_check(f.rdi, f.rsi) {
                Ok(_) => (l2, TunnelStep::ReadUser(f.rdi, f.rsi)),
                Err(_) => (l2, TunnelStep::Done(0)),
            }
        },
        _ => (warn_logged(l, time, "SYSTUNNEL: Unknown Call ID requested.".spec_bytes()), TunnelStep::Done(404)),
    }
}

/// Reports what is wrong with the frame; shows it before `Execute` and
/// `VfsExists`.
fn report_frame(frame: &SystunnelFrame, log: &mut RingBuffer, time: RtcTime)
    requires
        old(log).wf(),
    ensures
        final(log).wf(),
        final(log).contents() == frame_report(old(log).contents(), time, *frame),
        final(log).state() == frame_report_state(old(log).state(), time, *frame),
{
    let id = TunnelID::from(frame.rax);
    if frame.cs != USER_CODE_SELECTOR {
        let mut msg = empty_text();
        push_text(&mut msg, "CRITICAL: Segment Corruption! CS is 0x");
        push_hex(&mut msg, frame.cs);
        push_text(&mut msg, " instead of 0x1B");
        assert(msg@ =~= cs_msg(frame.cs));
        log_error(log, time, &msg);
    }
    if frame.rip < LOW_RIP_LIMIT {
        let mut msg = empty_text();
        push_text(&mut msg, "CRITICAL: Null or Low RIP! RIP is 0x");
        push_hex(&mut msg, frame.rip);
        assert(msg@ =~= rip_msg(frame.rip));
        log_error(log, time, &msg);
    }
    if id == TunnelID::Execute || id == TunnelID::VfsExists {
        let mut msg = empty_text();
        push_text(&mut msg, "IRETQ PREP -> RIP: 0x");
        push_hex(&mut msg, frame.rip);
        push_text(&mut msg, ", CS: 0x");
        push_hex(&mut msg, frame.cs);
        push_text(&mut msg, ", RSP: 0x");
        push_hex(&mut msg, frame.rsp);
        push_text(&mut msg, ", SS: 0x");
        push_hex(&mut msg, frame.ss);
        assert(msg@ =~= iretq_msg(*frame));
        log_debug(log, time, &msg);
    }
}

/// Starts a call: checks the frame, then answers it, or says which of the
/// program's memory is needed to go on, or that the program exited with a
/// failure and the recovery environment takes over. An answer is stored in
/// `rax`; otherwise the frame is left as it is.
pub fn begin_call(frame: &mut SystunnelFrame, log: &mut RingBuffer, time: RtcTime) -> (step: TunnelStep)
    requires
        old(log).wf(),
    ensures
        final(log).wf(),
        (final(log).contents(), step) == begin_outcome(*old(frame), old(log).contents(), time),
        final(log).state() == begin_log_state(*old(frame), old(log).state(), time),
        step matches TunnelStep::Done(v) ==> *final(frame) == (SystunnelFrame { rax: v, ..*old(frame) }),
        !(step is Done) ==> *final(frame) == *old(frame),
{
    report_frame(frame, log, time);
    let id = TunnelID::from(frame.rax);
    let result: u64 = match id {
        TunnelID::Ping => 0,
        TunnelID::Exit => {
            let status = frame.rdi;
            let mut msg = empty_text();
            push_text(&mut msg, "PROCESS: Exit triggered with code ");
            push_dec(&mut msg, status);
            assert(msg@ =~= exit_msg(status));
            log_warn(log, time, &msg);
            if status != 0 {
                return TunnelStep::Recovery;
            }
            0
        },
        TunnelID::Log => {
            match Validator::check_buffer(log, time, frame.rdi, frame.rsi) {
                Ok(_) => {
                    return TunnelStep::ReadUser(frame.rdi, frame.rsi);
                },
                Err(e) => u64::from(e),
            }
        },
        TunnelID::Execute => {
            return TunnelStep::ReadUser(frame.rdi, frame.rsi);
        },
        TunnelID::VfsExists => {
            match Validator::check_buffer(log, time, frame.rdi, frame.rsi) {
                Ok(_) => {
                    return TunnelStep::ReadUser(frame.rdi, frame.rsi);
                },
                Err(_) => 0,
            }
        },
        _ => {
            Logger::new().warn(log, time, "SYSTUNNEL: Unknown Call ID requested.");
            404
        },
    };
    frame.rax = result;
    TunnelStep::Done(result)
}

/// Where programs are loaded: at this base, offset by the file's inode
/// within a slot of `EXEC_SLOT` bytes.
pub const EXEC_BASE: u64 = 0x400_0000;

pub const EXEC_SLOT: u64 = 0x100_0000;

pub const PAGE_SIZE: u64 = 4096;

/// Size of a program's stack.
pub const USER_STACK_SIZE: u64 = 0x4000;

/// `n` rounded up to a whole number of pages.
pub open spec fn page_round_up(n: nat) -> nat {
    ((n + 4095) / 4096 * 4096) as nat
}

/// Where a program is loaded and where its stack is: the stack begins one
/// page past the end of the image, rounded up to a page.
#[derive(Debug, PartialEq, Eq)]
pub struct ExecImage {
    pub load_addr: u64,
    pub stack_base: u64,
    pub image: Vec<u8>,
}

/// How a call goes on once the program's memory was read.
pub enum TunnelResume {
    /// The call is answered; the answer is in `rax`.
    Done(u64),
    /// Map the image's pages and the stack's, copy the image to its load
    /// address, then call `finish_execute`.
    Load(ExecImage),
}

/// A path without one leading `/`.
pub open spec fn without_slash(p: Seq<char>) -> Seq<char> {
    if p.len() > 0 && p[0] == '/' {
        p.drop_first()
    } else {
        p
    }
}

/// The module a name leads to from the root node, if any.
pub open spec fn lookup(root: &VfsNode, name: Seq<char>) -> Option<int> {
    match root.operations {
        NodeOps::Root(fs) => first_named(fs.modules@, name),
        NodeOps::Module(_) => None,
    }
}

/// Whether a path names a file.
pub open spec fn path_exists(root: Option<&VfsNode>, p: Seq<char>) -> bool {
    root matches Some(r) && lookup(r, p) is Some
}

/// Whether every file is small enough to be loaded below the top of the
/// address space, with its stack.
pub open spec fn images_fit(root: Option<&VfsNode>) -> bool {
    root matches Some(r) ==> (r.operations matches NodeOps::Root(fs) ==> forall|i: int|
        0 <= i < fs.modules@.len() ==> #[trigger] fs.modules@[i].data@.len() + EXEC_BASE + EXEC_SLOT + 2 * PAGE_SIZE
            + USER_STACK_SIZE <= u64::MAX)
}

/// Tests `images_fit`: every file of the root directory can be loaded below
/// the top of the address space, with its stack.
#[verifier::loop_isolation(false)]
pub fn check_images_fit(root: Option<&VfsNode>) -> (r: bool)
    ensures
        r == images_fit(root),
{
    match root {
        Some(node) => match &node.operations {
            NodeOps::Root(fs) => {
                let n = fs.modules.len();
                let mut i: usize = 0;
                while i < n
                    invariant
                        0 <= i <= n,
                        n == fs.modules@.len(),
                        forall|j: int| 0 <= j < i ==> #[trigger] fs.modules@[j].data@.len() + EXEC_BASE + EXEC_SLOT + 2
                            * PAGE_SIZE + USER_STACK_SIZE <= u64::MAX,
                    decreases n - i,
                {
                    let len = fs.modules[i].data.len() as u64;
                    assert(len == fs.modules@[i as int].data@.len());
                    if len > u64::MAX - (EXEC_BASE + EXEC_SLOT + 2 * PAGE_SIZE + USER_STACK_SIZE) {
                        return false;
                    }
                    i = i + 1;
                }
                true
            },
            _ => true,
        },
        None => true,
    }
}

/// What `Execute` does with a path: loads the file it names (the leading `/`
/// is optional). The answer is 400 for a path that is not UTF-8, 503 before
/// the file system is there, 404 for no such file.
pub open spec fn exec_outcome(user: Seq<u8>, root: Option<&VfsNode>) -> Result<(u64, u64, Seq<u8>), u64> {
    if !valid_utf8(user) {
        Err(400)
    } else {
        match root {
            None => Err(503),
            Some(r) => match lookup(r, without_slash(decode_utf8(user))) {
                None => Err(404),
                Some(i) => {
                    let m = r.operations->Root_0.modules@[i];
                    let load = EXEC_BASE + m.addr % EXEC_SLOT;
                    Ok((load as u64, (load + page_round_up(m.data@.len()) + PAGE_SIZE) as u64, m.data@))
                },
            },
        }
    }
}

/// The answer of `VfsExists`: 1 when the path names a file, with or without
/// its leading `/`, else 0 (also for a path that is not UTF-8).
pub open spec fn exists_answer(user: Seq<u8>, root: Option<&VfsNode>) -> u64 {
    if valid_utf8(user) && (path_exists(root, decode_utf8(user)) || path_exists(
        root,
        without_slash(decode_utf8(user)),
    )) {
        1
    } else {
        0
    }
}

fn strip_slash(p: &str) -> (r: &str)
    ensures
        r@ == without_slash(p@),
{
    let n = p.unicode_len();
    if n > 0 && p.get_char(0) == '/' {
        p.substring_char(1, n)
    } else {
        p
    }
}

fn find_module(root: &VfsNode, name: &str) -> (r: Option<VfsNode>)
    ensures
        lookup(root, name@) is None ==> r is None,
        lookup(root, name@) matches Some(i) ==> (r matches Some(n) && lists_module(
            n,
            root.operations->Root_0.modules@[i],
        )),
{
    match root.operations.finddir(name) {
        Ok(n) => Some(n),
        Err(_) => None,
    }
}

proof fn lemma_round_up(size: u64)
    requires
        size + 0xFFF <= u64::MAX,
    ensures
        ((size + 0xFFF) as u64) & !0xFFFu64 == page_round_up(size as nat),
{
    let t: u64 = (size + 0xFFF) as u64;
    assert(t & !0xFFFu64 == (t / 4096u64) * 4096u64) by (bit_vector);
}

/// Goes on with a call once the program's `user` bytes were read (see
/// `begin_call`): `Log` prints them, `VfsExists` answers whether they name a
/// file, `Execute` finds the file to load.
pub fn continue_call(
    frame: &mut SystunnelFrame,
    user: &[u8],
    log: &mut RingBuffer,
    time: RtcTime,
    root: Option<&VfsNode>,
) -> (r: TunnelResume)
    requires
        old(log).wf(),
        tunnel_id(old(frame).rax) == TunnelID::Log || tunnel_id(old(frame).rax) == TunnelID::Execute || tunnel_id(
            old(frame).rax,
        ) == TunnelID::VfsExists,
        images_fit(root),
    ensures
        final(log).wf(),
        tunnel_id(old(frame).rax) == TunnelID::Log ==> ({
            let v: u64 = if valid_utf8(user@) { 0 } else { 1 };
            &&& r matches TunnelResume::Done(x) && x == v
            &&& *final(frame) == (SystunnelFrame { rax: v, ..*old(frame) })
            &&& valid_utf8(user@) ==> final(log).contents() == tunnel_logged(old(log).contents(), time, user@)
            &&& !valid_utf8(user@) ==> final(log).contents() == error_logged(
                old(log).contents(),
                time,
                "SYSTUNNEL: UTF-8 Decode Error".spec_bytes(),
            )
            &&& valid_utf8(user@) ==> final(log).state() == tunnel_state(old(log).state(), time, user@)
            &&& !valid_utf8(user@) ==> final(log).state() == error_state(
                old(log).state(),
                time,
                "SYSTUNNEL: UTF-8 Decode Error".spec_bytes(),
            )
        }),
        tunnel_id(old(frame).rax) == TunnelID::VfsExists ==> ({
            &&& r matches TunnelResume::Done(x) && x == exists_answer(user@, root)
            &&& *final(frame) == (SystunnelFrame { rax: exists_answer(user@, root), ..*old(frame) })
            &&& final(log).contents() == old(log).contents()
            &&& final(log).state() == old(log).state()
        }),
        tunnel_id(old(frame).rax) == TunnelID::Execute ==> ({
            &&& final(log).contents() == old(log).contents()
            &&& final(log).state() == old(log).state()
            &&& match exec_outcome(user@, root) {
                Err(code) => r matches TunnelResume::Done(x) && x == code && *final(frame) == (SystunnelFrame {
                    rax: code,
                    ..*old(frame)
                }),
                Ok((load, stack, image)) => r matches TunnelResume::Load(img) && img.load_addr == load
                    && img.stack_base == stack && img.image@ == image && *final(frame) == *old(frame),
            }
        }),
{
    let id = TunnelID::from(frame.rax);
    let path = str_from_utf8(user);
    proof {
        if path is Some {
            vstd::utf8::encode_utf8_decode_utf8(path->0@);
        }
    }
    if id == TunnelID::Log {
        let result: u64 = match path {
            Some(msg) => {
                Logger::new().tunnel(log, time, msg);
                0
            },
            None => {
                Logger::new().error(log, time, "SYSTUNNEL: UTF-8 Decode Error");
                1
            },
        };
        frame.rax = result;
        return TunnelResume::Done(result);
    }
    if id == TunnelID::VfsExists {
        let result: u64 = match path {
            Some(p) => {
                let normalized = strip_slash(p);
                let found = match root {
                    Some(r) => find_module(r, p).is_some() || find_module(r, normalized).is_some(),
                    None => false,
                };
                if found {
                    1
                } else {
                    0
                }
            },
            None => 0,
        };
        frame.rax = result;
        return TunnelResume::Done(result);
    }
    let p = match path {
        Some(p) => p,
        None => {
            frame.rax = 400;
            return TunnelResume::Done(400);
        },
    };
    let r = match root {
        Some(r) => r,
        None => {
            frame.rax = 503;
            return TunnelResume::Done(503);
        },
    };
    let clean_path = strip_slash(p);
    let node = match find_module(r, clean_path) {
        Some(n) => n,
        None => {
            frame.rax = 404;
            return TunnelResume::Done(404);
        },
    };
    proof {
        let fs = r.operations->Root_0;
        lemma_first_named_bound(fs.modules@, clean_path@);
        let i = lookup(r, clean_path@)->0;
        assert(fs.modules@[i].data@.len() + EXEC_BASE + EXEC_SLOT + 2 * PAGE_SIZE + USER_STACK_SIZE <= u64::MAX);
    }
    let load_addr = EXEC_BASE + node.inode % EXEC_SLOT;
    let size = node.size;
    let len: usize = match &node.operations {
        NodeOps::Module(f) => f.data.len(),
        NodeOps::Root(_) => 0,
    };
    let mut image: Vec<u8> = vec![0u8; len];
    match node.operations.read(0, image.as_mut_slice()) {
        Ok(_) => {},
        Err(_) => {
            frame.rax = 500;
            return TunnelResume::Done(500);
        },
    }
    proof {
        lemma_round_up(size);
        assert(image@ =~= node.operations->Module_0.data@);
    }
    let stack_base = load_addr + ((size + 0xFFF) & !0xFFFu64) + PAGE_SIZE;
    TunnelResume::Load(ExecImage { load_addr, stack_base, image })
}

/// Ends `Execute` once the image is in place: the program resumes at the
/// load address, with the stack pointer 8 bytes below the top of its stack,
/// and gets 0.
pub fn finish_execute(frame: &mut SystunnelFrame, img: &ExecImage) -> (r: u64)
    requires
        img.stack_base + USER_STACK_SIZE <= u64::MAX,
    ensures
        r == 0,
        *final(frame) == (SystunnelFrame {
            rip: img.load_addr,
            rsp: (img.stack_base + USER_STACK_SIZE - 8) as u64,
            rax: 0,
            ..*old(frame)
        }),
{
    frame.rip = img.load_addr;
    frame.rsp = img.stack_base + USER_STACK_SIZE - 8;
    frame.rax = 0;
    0
}

/// The pages to map for a loaded program: one for each 4 KiB of the image
/// from the load address, then the four pages of the stack.
pub fn exec_pages(img: &ExecImage) -> (pages: Vec<u64>)
    requires
        img.load_addr + img.image@.len() + PAGE_SIZE <= u64::MAX,
        img.stack_base + USER_STACK_SIZE <= u64::MAX,
    ensures
        pages@.len() == (img.image@.len() + 4095) / 4096 + 4,
        forall|k: int| 0 <= k < (img.image@.len() + 4095) / 4096 ==> #[trigger] pages@[k] == img.load_addr + k * 4096,
        forall|k: int|
            (img.image@.len() + 4095) / 4096 <= k < (img.image@.len() + 4095) / 4096 + 4 ==> #[trigger] pages@[k]
                == img.stack_base + (k - (img.image@.len() + 4095) / 4096) * 4096,
{
    let mut pages: Vec<u64> = Vec::new();
    let size = img.image.len() as u64;
    let mut offset: u64 = 0;
    let ghost n: int = ((img.image@.len() + 4095) / 4096) as int;
    while offset < size
        invariant
            size == img.image@.len(),
            img.load_addr + size + PAGE_SIZE <= u64::MAX,
            offset % 4096 == 0,
            offset <= size + 4095,
            pages@.len() == offset / 4096,
            forall|k: int| 0 <= k < pages@.len() ==> #[trigger] pages@[k] == img.load_addr + k * 4096,
        decreases size + 4096 - offset,
    {
        pages.push(img.load_addr + offset);
        offset = offset + PAGE_SIZE;
    }
    assert(pages@.len() == n);
    let mut k: u64 = 0;
    while k < 4
        invariant
            0 <= k <= 4,
            0 <= n,
            img.stack_base + USER_STACK_SIZE <= u64::MAX,
            pages@.len() == n + k,
            forall|j: int| 0 <= j < n ==> #[trigger] pages@[j] == img.load_addr + j * 4096,
            forall|j: int| n <= j < n + k ==> #[trigger] pages@[j] == img.stack_base + (j - n) * 4096,
        decreases 4 - k,
    {
        let ghost before = pages@;
        pages.push(img.stack_base + k * PAGE_SIZE);
        assert forall|j: int| 0 <= j < n implies #[trigger] pages@[j] == img.load_addr + j * 4096 by {
            assert(pages@[j] == before[j]);
        }
        assert forall|j: int| n <= j < n + k + 1 implies #[trigger] pages@[j] == img.stack_base + (j - n) * 4096 by {
            if j < n + k {
                assert(pages@[j] == before[j]);
            }
        }
        k = k + 1;
    }
    pages
}


/// A call whose id names no implemented service is answered 404, whatever
/// the frame holds.
pub proof fn unknown_calls_answer_404(f: SystunnelFrame, log: Seq<u8>, time: RtcTime)
    requires
        f.rax != 0 && f.rax != 1 && f.rax != 2 && f.rax != 9 && f.rax != 10,
    ensures
        begin_outcome(f, log, time).1 == TunnelStep::Done(404),
{
}

/// A buffer the validator accepts is not null and lies wholly in user space:
/// it starts at a user address and ends at or before the first kernel address.
pub proof fn accepted_buffers_lie_in_user_space(ptr: u64, len: u64)
    requires
        buffer_check(ptr, len) is Ok,
    ensures
        0 < ptr <= USER_SPACE_LIMIT,
        ptr + len <= USER_SPACE_LIMIT + 1,
{
}

} // verus!
