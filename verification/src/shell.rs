//! The kernel shell's commands: parsing a command line and writing each
//! command's output to the shell log.
use vstd::prelude::*;
use vstd::string::StringSliceAdditionalSpecFns;
use crate::ring_buffer::{RingBuffer, LOG_BUFFER_SIZE, last_n, bytes_pushed};
use crate::text::{lemma_add_assoc, lower_hex_digits, u64_lower_hexadecimal, str_from_utf8, pad_right_chars, push_str_padded_right, dec_digits, push_str_bytes, u64_decimal, push_all, push_padded_left, pad_left};
use crate::strs::{split_whitespace, parse_u64, words, parse_u64_spec, trim, trimmed};
use crate::cpuinfo::{CpuInfo, CpuFeatures};
use crate::meminfo::MemoryStats;
use crate::utils::{size_text, format_size_bytes};
use crate::vfs::VFS_VERSION;
use crate::process::SCHEDULER_VERSION;
use crate::systunnel::SYSTUNNEL_VERSION;
use vstd::string::StringExecFns;
use crate::process::{Task, Scheduler, position_of, with_state, TaskState, release_of};
use crate::vfs::{VfsNode, NodeOps, BootModule, module_name, lists_module, first_named, VfsOperations};
use vstd::utf8::{encode_utf8, valid_utf8, decode_utf8};

verus! {

/// The rule printed around command output.
pub const SEPARATOR: &'static str = "^&8-------------------------------------------------\n";

/// What the caller must do after a command ran.
#[derive(Debug, Clone, Copy, PartialEq, Eq, Structural)]
pub enum CommandResult {
    /// Nothing more.
    Nothing,
    /// Clear the screen.
    ClearScreen,
    /// Read `DUMP_BYTES` bytes at this address and hand them to
    /// `write_memory_dump`, which ends the `mdump` command.
    DumpMemory(u64),
    /// Reset the machine.
    Reboot,
}

/// The shell log after `text` was written to it.
pub open spec fn shell_wrote(log: Seq<u8>, text: Seq<u8>) -> Seq<u8> {
    last_n(log + text, LOG_BUFFER_SIZE as nat)
}

/// Appends the decimal digits of `n`.
fn push_decimal(out: &mut Vec<u8>, n: u64)
    ensures
        final(out)@ == old(out)@ + dec_digits(n as nat),
{
    let d = u64_decimal(n);
    push_all(out, &d);
}

/// One line of a help table: `^&9` name padded to 10, ` ^&f- `,
/// description, newline.
pub open spec fn help_line(name: &str, desc: &str) -> Seq<u8> {
    "^&9".spec_bytes() + pad_right_chars(name.spec_bytes(), name@.len(), 10) + " ^&f- ".spec_bytes()
        + desc.spec_bytes() + "\n".spec_bytes()
}

fn push_help_line(out: &mut Vec<u8>, name: &str, desc: &str)
    ensures
        final(out)@ == old(out)@ + help_line(name, desc),
{
    let ghost o = out@;
    push_str_bytes(out, "^&9");
    push_str_padded_right(out, name, 10);
    push_str_bytes(out, " ^&f- ");
    push_str_bytes(out, desc);
    push_str_bytes(out, "\n");
    assert(out@ =~= o + help_line(name, desc));
}

/// The help menu.
pub open spec fn help_text() -> Seq<u8> {
    SEPARATOR.spec_bytes() + " ^&fDeepX Shell - Help Menu\n".spec_bytes() + "\n".spec_bytes()
        + help_line("help", "Show this help menu")
        + help_line("info", "Display system information")
        + help_line("version", "Show kernel version")
        + help_line("clear", "Clear the console screen")
        + SEPARATOR.spec_bytes()
}

pub fn command_help(log: &mut RingBuffer)
    requires
        old(log).wf(),
    ensures
        final(log).wf(),
        final(log).contents() == shell_wrote(old(log).contents(), help_text()),
        final(log).state() == bytes_pushed(old(log).state(), help_text()),
{
    let mut out: Vec<u8> = Vec::new();
    push_str_bytes(&mut out, SEPARATOR);
    push_str_bytes(&mut out, " ^&fDeepX Shell - Help Menu\n");
    push_str_bytes(&mut out, "\n");
    push_help_line(&mut out, "help", "Show this help menu");
    push_help_line(&mut out, "info", "Display system information");
    push_help_line(&mut out, "version", "Show kernel version");
    push_help_line(&mut out, "clear", "Clear the console screen");
    push_str_bytes(&mut out, SEPARATOR);
    assert(out@ =~= help_text());
    log.push_bytes(out.as_slice());
}

/// `^&9Kernel version: ^&f` name ` ^&f` version ` (^&f` release name `)`.
pub open spec fn version_text() -> Seq<u8> {
    "^&9Kernel version: ^&f".spec_bytes() + crate::KERNEL_NAME.spec_bytes() + " ^&f".spec_bytes()
        + crate::KERNEL_VERSION.spec_bytes() + " (^&f".spec_bytes() + crate::KERNEL_MAJOR_VERSION_NAME.spec_bytes()
        + ")\n".spec_bytes()
}

pub fn command_version(log: &mut RingBuffer)
    requires
        old(log).wf(),
    ensures
        final(log).wf(),
        final(log).contents() == shell_wrote(old(log).contents(), version_text()),
        final(log).state() == bytes_pushed(old(log).state(), version_text()),
{
    let mut out: Vec<u8> = Vec::new();
    push_str_bytes(&mut out, "^&9Kernel version: ^&f");
    push_str_bytes(&mut out, crate::KERNEL_NAME);
    push_str_bytes(&mut out, " ^&f");
    push_str_bytes(&mut out, crate::KERNEL_VERSION);
    push_str_bytes(&mut out, " (^&f");
    push_str_bytes(&mut out, crate::KERNEL_MAJOR_VERSION_NAME);
    push_str_bytes(&mut out, ")\n");
    assert(out@ =~= version_text());
    log.push_bytes(out.as_slice());
}

/// Announces the reboot; the caller then resets the machine.
pub fn command_reboot(log: &mut RingBuffer)
    requires
        old(log).wf(),
    ensures
        final(log).wf(),
        final(log).contents() == shell_wrote(old(log).contents(), "^&eRebooting system...\n".spec_bytes()),
        final(log).state() == bytes_pushed(old(log).state(), "^&eRebooting system...\n".spec_bytes()),
{
    log.push_str("^&eRebooting system...\n");
}

/// Whole seconds and hundredths: `sec.ff`, the hundredths taken from a
/// fraction in ten-thousandths.
pub open spec fn seconds_text(sec: u64, frac: u64) -> Seq<u8> {
    dec_digits(sec as nat) + ".".spec_bytes() + pad_left(dec_digits((frac / 100) as nat), 2, 48u8)
}

fn push_seconds(out: &mut Vec<u8>, sec: u64, frac: u64)
    ensures
        final(out)@ == old(out)@ + seconds_text(sec, frac),
{
    let ghost o = out@;
    push_decimal(out, sec);
    push_str_bytes(out, ".");
    let d = u64_decimal(frac / 100);
    push_padded_left(out, &d, 2, 48u8);
    assert(out@ =~= o + seconds_text(sec, frac));
}

pub open spec fn uptime_text(sec: u64, frac: u64) -> Seq<u8> {
    "^&9Uptime: ^&f".spec_bytes() + seconds_text(sec, frac) + " seconds\n".spec_bytes()
}

/// Prints the uptime given as whole seconds and ten-thousandths.
pub fn command_uptime(log: &mut RingBuffer, uptime: (u64, u64))
    requires
        old(log).wf(),
    ensures
        final(log).wf(),
        final(log).contents() == shell_wrote(old(log).contents(), uptime_text(uptime.0, uptime.1)),
        final(log).state() == bytes_pushed(old(log).state(), uptime_text(uptime.0, uptime.1)),
{
    let mut out: Vec<u8> = Vec::new();
    push_str_bytes(&mut out, "^&9Uptime: ^&f");
    push_seconds(&mut out, uptime.0, uptime.1);
    push_str_bytes(&mut out, " seconds\n");
    assert(out@ =~= uptime_text(uptime.0, uptime.1));
    log.push_bytes(out.as_slice());
}

/// A message with a task id in it: `pre` id `post`.
pub open spec fn id_message(pre: &str, id: u64, post: &str) -> Seq<u8> {
    pre.spec_bytes() + dec_digits(id as nat) + post.spec_bytes()
}

fn push_id_message(log: &mut RingBuffer, pre: &str, id: u64, post: &str)
    requires
        old(log).wf(),
    ensures
        final(log).wf(),
        final(log).contents() == shell_wrote(old(log).contents(), id_message(pre, id, post)),
        final(log).state() == bytes_pushed(old(log).state(), id_message(pre, id, post)),
{
    let mut out: Vec<u8> = Vec::new();
    push_str_bytes(&mut out, pre);
    push_decimal(&mut out, id);
    push_str_bytes(&mut out, post);
    assert(out@ =~= id_message(pre, id, post));
    log.push_bytes(out.as_slice());
}

/// The words typed after a command's name.
pub struct CommandArgs<'a> {
    pub args: &'a [&'a str],
}

/// The text of each argument.
pub open spec fn arg_views(args: Seq<&str>) -> Seq<Seq<char>> {
    args.map_values(|a: &str| a@)
}

/// The id given as first argument, when there is one and it parses.
pub open spec fn arg_id(args: Seq<Seq<char>>) -> Option<u64> {
    if args.len() > 0 {
        parse_u64_spec(args[0])
    } else {
        None
    }
}

/// What `kill` prints for the given arguments and removal outcome.
pub open spec fn kill_text(args: Seq<Seq<char>>, removed: bool) -> Seq<u8> {
    if args.len() == 0 {
        "^&cUsage: kill <task_id>\n".spec_bytes()
    } else if let Some(id) = arg_id(args) {
        if removed {
            id_message("^&aTask ", id, " terminated successfully.\n")
        } else {
            id_message("^&cError: Cannot kill task ", id, " (protected or not found).\n")
        }
    } else {
        "^&cError: Invalid task ID.\n".spec_bytes()
    }
}

/// Whether `kill` with these arguments removes a task: the id parses, is
/// neither 0 nor 2, and some task has it.
pub open spec fn kill_removes(args: Seq<Seq<char>>, tasks: Seq<Task>) -> bool {
    arg_id(args) matches Some(id) && id != 0 && id != 2 && position_of(tasks, id) is Some
}

/// The tasks after `kill` with these arguments: without the first task with
/// the id when one is removed, else unchanged.
pub open spec fn tasks_after_kill(args: Seq<Seq<char>>, tasks: Seq<Task>) -> Seq<Task> {
    if kill_removes(args, tasks) {
        tasks.remove(position_of(tasks, arg_id(args)->0)->0)
    } else {
        tasks
    }
}

/// The released stacks after `kill` with these arguments: the removed
/// task's stack joins them.
pub open spec fn released_after_kill(args: Seq<Seq<char>>, tasks: Seq<Task>, released: Seq<u64>) -> Seq<u64> {
    if kill_removes(args, tasks) {
        release_of(released, tasks[position_of(tasks, arg_id(args)->0)->0])
    } else {
        released
    }
}

/// `kill <id>`: removes the task (tasks 0 and 2 are protected).
pub fn command_kill(log: &mut RingBuffer, args: &[&str], scheduler: &mut Scheduler)
    requires
        old(log).wf(),
    ensures
        final(log).wf(),
        final(scheduler).cpu_slots() == old(scheduler).cpu_slots(),
        final(scheduler).id_counter() == old(scheduler).id_counter(),
        final(log).contents() == shell_wrote(
            old(log).contents(),
            kill_text(arg_views(args@), kill_removes(arg_views(args@), old(scheduler).tasks@)),
        ),
        final(log).state() == bytes_pushed(
            old(log).state(),
            kill_text(arg_views(args@), kill_removes(arg_views(args@), old(scheduler).tasks@)),
        ),
        final(scheduler).tasks@ == tasks_after_kill(arg_views(args@), old(scheduler).tasks@),
        final(scheduler).released_stacks() == released_after_kill(
            arg_views(args@),
            old(scheduler).tasks@,
            old(scheduler).released_stacks(),
        ),
{
    if args.len() == 0 {
        log.push_str("^&cUsage: kill <task_id>\n");
        return;
    }
    match parse_u64(args[0]) {
        Some(id) => {
            if scheduler.remove_task(id) {
                push_id_message(log, "^&aTask ", id, " terminated successfully.\n");
            } else {
                push_id_message(log, "^&cError: Cannot kill task ", id, " (protected or not found).\n");
            }
        },
        None => {
            log.push_str("^&cError: Invalid task ID.\n");
        },
    }
}

/// What `block` prints: nothing without a valid id.
pub open spec fn block_text(args: Seq<Seq<char>>, found: bool) -> Seq<u8> {
    if let Some(id) = arg_id(args) {
        if id == 0 {
            "^&cError: Cannot block kernel_main.\n".spec_bytes()
        } else if found {
            id_message("^&eTask ", id, " is now Blocked.\n")
        } else {
            "^&cError: Task not found.\n".spec_bytes()
        }
    } else {
        Seq::empty()
    }
}

/// `block <id>`: marks the task blocked; task 0 cannot be blocked.
pub fn command_block(log: &mut RingBuffer, args: &[&str], scheduler: &mut Scheduler)
    requires
        old(log).wf(),
    ensures
        final(log).wf(),
        final(scheduler).cpu_slots() == old(scheduler).cpu_slots(),
        final(scheduler).released_stacks() == old(scheduler).released_stacks(),
        final(scheduler).id_counter() == old(scheduler).id_counter(),
        ({
            let found = arg_id(arg_views(args@)) matches Some(id) && id != 0 && position_of(old(scheduler).tasks@, id) is Some;
            &&& arg_id(arg_views(args@)) is None ==> final(log).contents() == old(log).contents()
            &&& arg_id(arg_views(args@)) is Some ==> final(log).contents() == shell_wrote(old(log).contents(), block_text(arg_views(args@), found))
            &&& final(log).state() == bytes_pushed(old(log).state(), block_text(arg_views(args@), found))
            &&& found ==> final(scheduler).tasks@ == with_state(old(scheduler).tasks@,
                position_of(old(scheduler).tasks@, arg_id(arg_views(args@))->0)->0, TaskState::Blocked)
            &&& !found ==> final(scheduler).tasks@ == old(scheduler).tasks@
        }),
{
    if args.len() > 0 {
        if let Some(id) = parse_u64(args[0]) {
            if id == 0 {
                log.push_str("^&cError: Cannot block kernel_main.\n");
                return;
            }
            if scheduler.block_task(id) {
                push_id_message(log, "^&eTask ", id, " is now Blocked.\n");
            } else {
                log.push_str("^&cError: Task not found.\n");
            }
        }
    }
}

/// What `resume` prints: nothing without a valid id.
pub open spec fn resume_text(args: Seq<Seq<char>>, found: bool) -> Seq<u8> {
    if let Some(id) = arg_id(args) {
        if found {
            id_message("^&aTask ", id, " is now Ready.\n")
        } else {
            "^&cError: Task not found.\n".spec_bytes()
        }
    } else {
        Seq::empty()
    }
}

/// `resume <id>`: marks the task ready.
pub fn command_resume(log: &mut RingBuffer, args: &[&str], scheduler: &mut Scheduler)
    requires
        old(log).wf(),
    ensures
        final(log).wf(),
        final(scheduler).cpu_slots() == old(scheduler).cpu_slots(),
        final(scheduler).released_stacks() == old(scheduler).released_stacks(),
        final(scheduler).id_counter() == old(scheduler).id_counter(),
        ({
            let found = arg_id(arg_views(args@)) matches Some(id) && position_of(old(scheduler).tasks@, id) is Some;
            &&& arg_id(arg_views(args@)) is None ==> final(log).contents() == old(log).contents()
            &&& arg_id(arg_views(args@)) is Some ==> final(log).contents() == shell_wrote(old(log).contents(), resume_text(arg_views(args@), found))
            &&& final(log).state() == bytes_pushed(old(log).state(), resume_text(arg_views(args@), found))
            &&& found ==> final(scheduler).tasks@ == with_state(old(scheduler).tasks@,
                position_of(old(scheduler).tasks@, arg_id(arg_views(args@))->0)->0, TaskState::Ready)
            &&& !found ==> final(scheduler).tasks@ == old(scheduler).tasks@
        }),
{
    if args.len() > 0 {
        if let Some(id) = parse_u64(args[0]) {
            if scheduler.resume_task(id) {
                push_id_message(log, "^&aTask ", id, " is now Ready.\n");
            } else {
                log.push_str("^&cError: Task not found.\n");
            }
        }
    }
}

/// The text of a name: its UTF-8 bytes.
pub open spec fn name_bytes(name: Seq<char>) -> Seq<u8> {
    encode_utf8(name)
}

/// One `ls` line: `  ^&7/` name padded to 16, ` ^&7`, size right-aligned
/// in 8, ` bytes`.
pub open spec fn ls_line(m: BootModule) -> Seq<u8> {
    "  ^&7/".spec_bytes() + pad_right_chars(name_bytes(module_name(m.cmdline@)), module_name(m.cmdline@).len(), 16)
        + " ^&7".spec_bytes() + pad_left(dec_digits(m.data@.len()), 8, 32u8) + " bytes\n".spec_bytes()
}

pub open spec fn ls_text(modules: Seq<BootModule>) -> Seq<u8>
    decreases modules.len(),
{
    if modules.len() == 0 {
        Seq::empty()
    } else {
        ls_text(modules.drop_last()) + ls_line(modules.last())
    }
}

/// What `ls` prints for a root node: one line per boot module when the root
/// is the module directory, else nothing.
pub open spec fn ls_output(root: Option<&VfsNode>) -> Seq<u8> {
    match root {
        Some(r) => match r.operations {
            NodeOps::Root(fs) => ls_text(fs.modules@),
            NodeOps::Module(_) => Seq::empty(),
        },
        None => Seq::empty(),
    }
}

/// `ls`: lists the root directory.
pub fn command_ls(log: &mut RingBuffer, root: Option<&VfsNode>)
    requires
        old(log).wf(),
    ensures
        final(log).wf(),
        final(log).contents() == shell_wrote(old(log).contents(), ls_output(root)),
        final(log).state() == bytes_pushed(old(log).state(), ls_output(root)),
{
    let mut out: Vec<u8> = Vec::new();
    if let Some(r) = root {
        if let Ok(entries) = r.operations.readdir() {
            let ghost mods = match &r.operations {
                NodeOps::Root(fs) => fs.modules@,
                NodeOps::Module(_) => Seq::empty(),
            };
            let mut i: usize = 0;
            while i < entries.len()
                invariant
                    0 <= i <= entries@.len(),
                    entries@.len() == mods.len(),
                    forall|j: int| 0 <= j < entries@.len() ==> lists_module(#[trigger] entries@[j], mods[j]),
                    out@ == ls_text(mods.subrange(0, i as int)),
                decreases entries@.len() - i,
            {
                let e = &entries[i];
                let ghost o = out@;
                push_str_bytes(&mut out, "  ^&7/");
                push_str_padded_right(&mut out, e.name.as_str(), 16);
                push_str_bytes(&mut out, " ^&7");
                let d = u64_decimal(e.size);
                push_padded_left(&mut out, &d, 8, 32u8);
                push_str_bytes(&mut out, " bytes\n");
                proof {
                    assert(mods.subrange(0, i + 1).drop_last() =~= mods.subrange(0, i as int));
                    assert(out@ =~= o + ls_line(mods[i as int]));
                }
                i = i + 1;
            }
            assert(mods.subrange(0, mods.len() as int) =~= mods);
        }
    }
    log.push_bytes(out.as_slice());
}

/// How much of a file `rd` shows at most.
pub const READ_LIMIT: usize = 524288;

/// What `rd` prints for a file's contents.
pub open spec fn file_text(data: Seq<u8>) -> Seq<u8> {
    let n = if data.len() <= READ_LIMIT { data.len() } else { READ_LIMIT as nat };
    let content = data.subrange(0, n as int);
    "^&7--- START OF FILE ---\n".spec_bytes() + (if valid_utf8(content) {
        content
    } else {
        "^&8[Binary data - cannot display as text]\n".spec_bytes()
    }) + "\n^&7--- END OF FILE ---\n".spec_bytes()
}

pub open spec fn not_found_text(name: Seq<char>) -> Seq<u8> {
    "^&cError: File '".spec_bytes() + encode_utf8(name) + "' not found.\n".spec_bytes()
}

/// What `rd` prints.
pub open spec fn rd_output(args: Seq<Seq<char>>, root: Option<&VfsNode>) -> Seq<u8> {
    if args.len() == 0 {
        "^&cUsage: rd <filename>\n".spec_bytes()
    } else {
        match root {
            None => "^&cError: VFS not initialized.\n".spec_bytes(),
            Some(r) => match r.operations {
                NodeOps::Root(fs) => match first_named(fs.modules@, args[0]) {
                    Some(i) => file_text(fs.modules@[i].data@),
                    None => not_found_text(args[0]),
                },
                NodeOps::Module(_) => not_found_text(args[0]),
            },
        }
    }
}

/// `rd <file>`: prints a file as text (at most 512 KiB of it).
pub fn command_rd(log: &mut RingBuffer, args: &[&str], root: Option<&VfsNode>)
    requires
        old(log).wf(),
    ensures
        final(log).wf(),
        final(log).contents() == shell_wrote(old(log).contents(), rd_output(arg_views(args@), root)),
        final(log).state() == bytes_pushed(old(log).state(), rd_output(arg_views(args@), root)),
{
    if args.len() == 0 {
        log.push_str("^&cUsage: rd <filename>\n");
        return;
    }
    let filename = args[0];
    match root {
        None => {
            log.push_str("^&cError: VFS not initialized.\n");
        },
        Some(r) => {
            match r.operations.finddir(filename) {
                Ok(node) => {
                    let ghost data = match &r.operations {
                        NodeOps::Root(fs) => fs.modules@[first_named(fs.modules@, filename@)->0].data@,
                        NodeOps::Module(_) => Seq::empty(),
                    };
                    let size_to_read: usize = if node.size <= READ_LIMIT as u64 { node.size as usize } else { READ_LIMIT };
                    let mut buffer: Vec<u8> = vec![0u8; size_to_read];
                    match node.operations.read(0, buffer.as_mut_slice()) {
                        Ok(read_bytes) => {
                            let mut out: Vec<u8> = Vec::new();
                            push_str_bytes(&mut out, "^&7--- START OF FILE ---\n");
                            let content: &[u8] = &buffer.as_slice()[0..read_bytes];
                            let ghost n = if data.len() <= READ_LIMIT { data.len() } else { READ_LIMIT as nat };
                            assert(content@ =~= data.subrange(0, n as int));
                            match str_from_utf8(content) {
                                Some(text) => push_str_bytes(&mut out, text),
                                None => push_str_bytes(&mut out, "^&8[Binary data - cannot display as text]\n"),
                            }
                            push_str_bytes(&mut out, "\n^&7--- END OF FILE ---\n");
                            assert(out@ =~= file_text(data));
                            log.push_bytes(out.as_slice());
                        },
                        Err(_) => {
                            log.push_str("^&cError: Failed to read file content.\n");
                        },
                    }
                },
                Err(_) => {
                    let mut out: Vec<u8> = Vec::new();
                    push_str_bytes(&mut out, "^&cError: File '");
                    push_str_bytes(&mut out, filename);
                    push_str_bytes(&mut out, "' not found.\n");
                    assert(out@ =~= not_found_text(filename@));
                    log.push_bytes(out.as_slice());
                },
            }
        },
    }
}

/// How a task's state is shown (always ten characters).
pub open spec fn state_text(st: TaskState) -> &'static str {
    match st {
        TaskState::Running => "^&aRunning",
        TaskState::Ready => "^&eReady  ",
        TaskState::Blocked => "^&cBlocked",
    }
}

/// Percentage of the task's stack in use; zero for a task without a stack.
pub open spec fn stack_usage(t: Task) -> nat {
    if t.stack_top - t.stack_bottom > 0 {
        (((t.stack_top - t.stack_pointer) * 100) / (t.stack_top - t.stack_bottom)) as nat
    } else {
        0
    }
}

/// Whether the task's stack bounds let its usage be computed.
pub open spec fn stack_bounds_ok(t: Task) -> bool {
    t.stack_bottom <= t.stack_top && t.stack_pointer <= t.stack_top && (t.stack_top - t.stack_pointer) * 100 <= u64::MAX
}

/// One row of the task table.
pub open spec fn task_line(t: Task) -> Seq<u8> {
    " ^&9".spec_bytes() + crate::text::pad_right(dec_digits(t.id as nat), 3) + " ^&f".spec_bytes()
        + pad_right_chars(name_bytes(t.name@), t.name@.len(), 16) + " ".spec_bytes()
        + pad_right_chars(state_text(t.state).spec_bytes(), state_text(t.state)@.len(), 10) + " ^&70x".spec_bytes()
        + pad_left(lower_hex_digits((t.stack_pointer % 0x1_0000_0000) as nat), 8, 48u8)
        + "       ^&f".spec_bytes() + pad_left(dec_digits(stack_usage(t)), 3, 32u8) + "%\n".spec_bytes()
}

pub open spec fn task_lines(ts: Seq<Task>) -> Seq<u8>
    decreases ts.len(),
{
    if ts.len() == 0 {
        Seq::empty()
    } else {
        task_lines(ts.drop_last()) + task_line(ts.last())
    }
}

/// The task table.
pub open spec fn tasks_text(ts: Seq<Task>) -> Seq<u8> {
    SEPARATOR.spec_bytes() + "^&fID   NAME             STATE      SP            USAGE\n".spec_bytes()
        + SEPARATOR.spec_bytes() + task_lines(ts) + SEPARATOR.spec_bytes()
}

fn state_str(st: TaskState) -> (s: &'static str)
    ensures
        s == state_text(st),
{
    match st {
        TaskState::Running => "^&aRunning",
        TaskState::Ready => "^&eReady  ",
        TaskState::Blocked => "^&cBlocked",
    }
}

#[verifier::rlimit(60)]
fn push_task_line(out: &mut Vec<u8>, t: &Task)
    requires
        stack_bounds_ok(*t),
    ensures
        final(out)@ == old(out)@ + task_line(*t),
{
    let ghost o = out@;
    push_str_bytes(out, " ^&9");
    let id = u64_decimal(t.id);
    crate::text::push_padded_right(out, &id, 3);
    push_str_bytes(out, " ^&f");
    push_str_padded_right(out, t.name.as_str(), 16);
    push_str_bytes(out, " ");
    push_str_padded_right(out, state_str(t.state), 10);
    push_str_bytes(out, " ^&70x");
    let sp = t.stack_pointer;
    let sp32 = sp & 0xFFFFFFFF;
    assert(sp32 == sp % 0x1_0000_0000) by (bit_vector)
        requires
            sp32 == sp & 0xFFFFFFFF,
    ;
    let h = u64_lower_hexadecimal(sp32);
    push_padded_left(out, &h, 8, 48u8);
    push_str_bytes(out, "       ^&f");
    let stack_size = t.stack_top - t.stack_bottom;
    let stack_used = t.stack_top - t.stack_pointer;
    let usage_percent = if stack_size > 0 { (stack_used * 100) / stack_size } else { 0 };
    let u = u64_decimal(usage_percent);
    push_padded_left(out, &u, 3, 32u8);
    push_str_bytes(out, "%\n");
    assert(out@ =~= o + task_line(*t));
}

/// `tasks`: the table of tasks with their state, stack pointer and stack use.
pub fn command_tasks(log: &mut RingBuffer, scheduler: &Scheduler)
    requires
        old(log).wf(),
        forall|i: int| 0 <= i < scheduler.tasks@.len() ==> stack_bounds_ok(#[trigger] scheduler.tasks@[i]),
    ensures
        final(log).wf(),
        final(log).contents() == shell_wrote(old(log).contents(), tasks_text(scheduler.tasks@)),
        final(log).state() == bytes_pushed(old(log).state(), tasks_text(scheduler.tasks@)),
{
    let tasks = scheduler.get_tasks();
    let mut out: Vec<u8> = Vec::new();
    push_str_bytes(&mut out, SEPARATOR);
    push_str_bytes(&mut out, "^&fID   NAME             STATE      SP            USAGE\n");
    push_str_bytes(&mut out, SEPARATOR);
    let ghost head = out@;
    let mut i: usize = 0;
    while i < tasks.len()
        invariant
            0 <= i <= tasks@.len(),
            tasks@ == scheduler.tasks@,
            forall|j: int| 0 <= j < tasks@.len() ==> stack_bounds_ok(#[trigger] tasks@[j]),
            out@ == head + task_lines(tasks@.subrange(0, i as int)),
        decreases tasks@.len() - i,
    {
        let ghost o = out@;
        push_task_line(&mut out, &tasks[i]);
        assert(tasks@.subrange(0, i + 1).drop_last() =~= tasks@.subrange(0, i as int));
        assert(out@ =~= head + task_lines(tasks@.subrange(0, i + 1)));
        i = i + 1;
    }
    push_str_bytes(&mut out, SEPARATOR);
    assert(tasks@.subrange(0, tasks@.len() as int) =~= tasks@);
    assert(out@ =~= tasks_text(scheduler.tasks@));
    log.push_bytes(out.as_slice());
}

pub const KERNEL_SHELL_VERSION: &'static str = "v0.3.2";

/// What `info` reports about the machine.
pub struct SystemInfo {
    pub cpu: CpuInfo,
    pub mem: Option<MemoryStats>,
    pub uptime: (u64, u64),
}

/// Whether two strings are equal.
pub fn str_equals(a: &str, b: &str) -> (r: bool)
    ensures
        r == (a@ == b@),
{
    let x = String::from_str(a);
    let y = String::from_str(b);
    x == y
}

/// The brand string as shown: the 48 brand bytes as text (or
/// `Invalid UTF-8`), without surrounding white space.
pub open spec fn brand_text(brand: Seq<u8>) -> Seq<u8> {
    encode_utf8(trimmed(if valid_utf8(brand) { decode_utf8(brand) } else { "Invalid UTF-8"@ }))
}

pub(crate) fn push_brand(out: &mut Vec<u8>, cpu: &CpuInfo)
    ensures
        final(out)@ == old(out)@ + brand_text(cpu.brand@),
{
    let s: &str = match str_from_utf8(cpu.brand.as_slice()) {
        Some(t) => {
            proof {
                vstd::utf8::encode_utf8_decode_utf8(t@);
            }
            t
        },
        None => "Invalid UTF-8",
    };
    let t = trim(s);
    push_str_bytes(out, t);
}

pub open spec fn bool_text(b: bool) -> Seq<u8> {
    if b { "true".spec_bytes() } else { "false".spec_bytes() }
}

fn push_bool(out: &mut Vec<u8>, b: bool)
    ensures
        final(out)@ == old(out)@ + bool_text(b),
{
    if b {
        push_str_bytes(out, "true");
    } else {
        push_str_bytes(out, "false");
    }
}

/// The debug form of the feature flags.
pub open spec fn features_text(f: CpuFeatures) -> Seq<u8> {
    "CpuFeatures { sse: ".spec_bytes() + bool_text(f.sse) + ", sse2: ".spec_bytes() + bool_text(f.sse2)
        + ", avx: ".spec_bytes() + bool_text(f.avx) + ", nx: ".spec_bytes() + bool_text(f.nx) + ", htt: ".spec_bytes()
        + bool_text(f.htt) + " }".spec_bytes()
}

fn push_features(out: &mut Vec<u8>, f: CpuFeatures)
    ensures
        final(out)@ == old(out)@ + features_text(f),
{
    let ghost o = out@;
    push_str_bytes(out, "CpuFeatures { sse: ");
    let ghost acc = "CpuFeatures { sse: ".spec_bytes();
    push_bool(out, f.sse);
    proof { lemma_add_assoc(o, acc, bool_text(f.sse)); }
    let ghost acc = acc + bool_text(f.sse);
    push_str_bytes(out, ", sse2: ");
    proof { lemma_add_assoc(o, acc, ", sse2: ".spec_bytes()); }
    let ghost acc = acc + ", sse2: ".spec_bytes();
    push_bool(out, f.sse2);
    proof { lemma_add_assoc(o, acc, bool_text(f.sse2)); }
    let ghost acc = acc + bool_text(f.sse2);
    push_str_bytes(out, ", avx: ");
    proof { lemma_add_assoc(o, acc, ", avx: ".spec_bytes()); }
    let ghost acc = acc + ", avx: ".spec_bytes();
    push_bool(out, f.avx);
    proof { lemma_add_assoc(o, acc, bool_text(f.avx)); }
    let ghost acc = acc + bool_text(f.avx);
    push_str_bytes(out, ", nx: ");
    proof { lemma_add_assoc(o, acc, ", nx: ".spec_bytes()); }
    let ghost acc = acc + ", nx: ".spec_bytes();
    push_bool(out, f.nx);
    proof { lemma_add_assoc(o, acc, bool_text(f.nx)); }
    let ghost acc = acc + bool_text(f.nx);
    push_str_bytes(out, ", htt: ");
    proof { lemma_add_assoc(o, acc, ", htt: ".spec_bytes()); }
    let ghost acc = acc + ", htt: ".spec_bytes();
    push_bool(out, f.htt);
    proof { lemma_add_assoc(o, acc, bool_text(f.htt)); }
    let ghost acc = acc + bool_text(f.htt);
    push_str_bytes(out, " }");
    proof { lemma_add_assoc(o, acc, " }".spec_bytes()); }
    let ghost acc = acc + " }".spec_bytes();
}

/// `info ver`.
pub open spec fn info_ver_text() -> Seq<u8> {
    SEPARATOR.spec_bytes() + "^&9Kernel:      ^&f".spec_bytes() + crate::KERNEL_NAME.spec_bytes() + " v".spec_bytes()
        + crate::KERNEL_VERSION.spec_bytes() + "\n".spec_bytes() + "^&9OS: ^&f".spec_bytes()
        + "Unknown/Not installed".spec_bytes() + "\n".spec_bytes() + "^&9Scheduler API:   ^&f".spec_bytes()
        + SCHEDULER_VERSION.spec_bytes() + "\n".spec_bytes() + "^&9VFS API:         ^&f".spec_bytes()
        + VFS_VERSION.spec_bytes() + "\n".spec_bytes() + "^&9Systunnel ABI:   ^&f".spec_bytes()
        + SYSTUNNEL_VERSION.spec_bytes() + "\n".spec_bytes() + "^&9KernelShell API: ^&f".spec_bytes()
        + KERNEL_SHELL_VERSION.spec_bytes() + "\n".spec_bytes() + SEPARATOR.spec_bytes()
}

/// The memory lines of `info hw`.
pub open spec fn mem_lines(mem: Option<MemoryStats>) -> Seq<u8> {
    match mem {
        Some(s) => "  ^&9RAM Usable:     ^&f".spec_bytes() + size_text(s.usable as nat) + "\n".spec_bytes()
            + "  ^&9RAM Reserved:   ^&f".spec_bytes() + size_text(s.reserved as nat) + "\n".spec_bytes()
            + "  ^&9Kernel Code:    ^&f".spec_bytes() + size_text(s.kernel as nat) + "\n".spec_bytes()
            + "  ^&9Boot Reclaim:   ^&f".spec_bytes() + size_text(s.boot_reclaim as nat) + "\n".spec_bytes()
            + "  ^&9Reserved Count: ^&f".spec_bytes() + dec_digits(s.reserved_count as nat) + "\n".spec_bytes(),
        None => "  ^&cError: Memory map not available\n".spec_bytes(),
    }
}

/// `info hw`.
pub open spec fn info_hw_text(sys: SystemInfo) -> Seq<u8> {
    SEPARATOR.spec_bytes() + "^&fHardware Resources\n".spec_bytes() + " ^&7CPU:\n".spec_bytes()
        + "  ^&9Vendor:         ^&f".spec_bytes() + sys.cpu.vendor.spec_bytes() + "\n".spec_bytes()
        + "  ^&9Brand:          ^&f".spec_bytes() + brand_text(sys.cpu.brand@) + "\n".spec_bytes()
        + "  ^&9Cores:          ^&f".spec_bytes() + dec_digits(sys.cpu.cores as nat) + "\n".spec_bytes()
        + "  ^&9Threads:        ^&f".spec_bytes() + dec_digits(sys.cpu.threads as nat) + "\n".spec_bytes()
        + "  ^&9Features:       ^&f".spec_bytes() + features_text(sys.cpu.features) + "\n".spec_bytes()
        + "  ^&9Temp Sensor:    ^&f".spec_bytes() + bool_text(sys.cpu.temp_support) + "\n".spec_bytes()
        + " ^&7MEM:\n".spec_bytes() + mem_lines(sys.mem) + SEPARATOR.spec_bytes()
}

/// `info help`.
pub open spec fn info_help_text() -> Seq<u8> {
    SEPARATOR.spec_bytes() + help_line("info", "System summary") + help_line("info hw", "Hardware information")
        + help_line("info ver", "Version information") + SEPARATOR.spec_bytes()
}

/// `info`: the summary.
pub open spec fn info_summary_text(sys: SystemInfo) -> Seq<u8> {
    SEPARATOR.spec_bytes() + "^&9Kernel:  ^&f".spec_bytes() + crate::KERNEL_VERSION.spec_bytes() + "\n".spec_bytes()
        + "^&9OS:      ^&f".spec_bytes() + "Unknown/Not installed".spec_bytes() + "\n".spec_bytes()
        + "^&9Uptime:  ^&f".spec_bytes() + seconds_text(sys.uptime.0, sys.uptime.1) + "s\n".spec_bytes()
        + summary_mem_text(sys.mem) + "^&9Cpu:     ^&f".spec_bytes() + brand_text(sys.cpu.brand@) + "\n".spec_bytes()
        + "\n^&7Type '^&finfo help^&7' for more details.\n".spec_bytes() + SEPARATOR.spec_bytes()
}

/// The `info` subcommand named by the arguments (empty when none).
pub open spec fn info_sub(args: Seq<Seq<char>>) -> Seq<char> {
    if args.len() > 0 { args[0] } else { ""@ }
}

/// What `info` prints for the given arguments.
pub open spec fn info_text(args: Seq<Seq<char>>, sys: SystemInfo) -> Seq<u8> {
    if info_sub(args) == "ver"@ {
        info_ver_text()
    } else if info_sub(args) == "hw"@ {
        info_hw_text(sys)
    } else if info_sub(args) == "help"@ {
        info_help_text()
    } else {
        info_summary_text(sys)
    }
}

fn push_size(out: &mut Vec<u8>, n: u64)
    ensures
        final(out)@ == old(out)@ + size_text(n as nat),
{
    let v = format_size_bytes(n);
    push_all(out, &v);
}

#[verifier::rlimit(100)]
fn push_mem_lines(out: &mut Vec<u8>, mem: Option<MemoryStats>)
    ensures
        final(out)@ == old(out)@ + mem_lines(mem),
{
    let ghost o = out@;
    match mem {
        Some(s) => {
            push_str_bytes(out, "  ^&9RAM Usable:     ^&f");
            push_size(out, s.usable);
            push_str_bytes(out, "\n");
            push_str_bytes(out, "  ^&9RAM Reserved:   ^&f");
            push_size(out, s.reserved);
            push_str_bytes(out, "\n");
            push_str_bytes(out, "  ^&9Kernel Code:    ^&f");
            push_size(out, s.kernel);
            push_str_bytes(out, "\n");
            push_str_bytes(out, "  ^&9Boot Reclaim:   ^&f");
            push_size(out, s.boot_reclaim);
            push_str_bytes(out, "\n");
            push_str_bytes(out, "  ^&9Reserved Count: ^&f");
            push_decimal(out, s.reserved_count);
            push_str_bytes(out, "\n");
        },
        None => {
            push_str_bytes(out, "  ^&cError: Memory map not available\n");
        },
    }
    assert(out@ =~= o + mem_lines(mem));
}

fn info_ver(out: &mut Vec<u8>)
    ensures
        final(out)@ == old(out)@ + info_ver_text(),
{
    let ghost o = out@;
    push_str_bytes(out, SEPARATOR);
    let ghost acc = SEPARATOR.spec_bytes();
    push_str_bytes(out, "^&9Kernel:      ^&f");
    proof { lemma_add_assoc(o, acc, "^&9Kernel:      ^&f".spec_bytes()); }
    let ghost acc = acc + "^&9Kernel:      ^&f".spec_bytes();
    push_str_bytes(out, crate::KERNEL_NAME);
    proof { lemma_add_assoc(o, acc, crate::KERNEL_NAME.spec_bytes()); }
    let ghost acc = acc + crate::KERNEL_NAME.spec_bytes();
    push_str_bytes(out, " v");
    proof { lemma_add_assoc(o, acc, " v".spec_bytes()); }
    let ghost acc = acc + " v".spec_bytes();
    push_str_bytes(out, crate::KERNEL_VERSION);
    proof { lemma_add_assoc(o, acc, crate::KERNEL_VERSION.spec_bytes()); }
    let ghost acc = acc + crate::KERNEL_VERSION.spec_bytes();
    push_str_bytes(out, "\n");
    proof { lemma_add_assoc(o, acc, "\n".spec_bytes()); }
    let ghost acc = acc + "\n".spec_bytes();
    push_str_bytes(out, "^&9OS: ^&f");
    proof { lemma_add_assoc(o, acc, "^&9OS: ^&f".spec_bytes()); }
    let ghost acc = acc + "^&9OS: ^&f".spec_bytes();
    push_str_bytes(out, "Unknown/Not installed");
    proof { lemma_add_assoc(o, acc, "Unknown/Not installed".spec_bytes()); }
    let ghost acc = acc + "Unknown/Not installed".spec_bytes();
    push_str_bytes(out, "\n");
    proof { lemma_add_assoc(o, acc, "\n".spec_bytes()); }
    let ghost acc = acc + "\n".spec_bytes();
    push_str_bytes(out, "^&9Scheduler API:   ^&f");
    proof { lemma_add_assoc(o, acc, "^&9Scheduler API:   ^&f".spec_bytes()); }
    let ghost acc = acc + "^&9Scheduler API:   ^&f".spec_bytes();
    push_str_bytes(out, SCHEDULER_VERSION);
    proof { lemma_add_assoc(o, acc, SCHEDULER_VERSION.spec_bytes()); }
    let ghost acc = acc + SCHEDULER_VERSION.spec_bytes();
    push_str_bytes(out, "\n");
    proof { lemma_add_assoc(o, acc, "\n".spec_bytes()); }
    let ghost acc = acc + "\n".spec_bytes();
    push_str_bytes(out, "^&9VFS API:         ^&f");
    proof { lemma_add_assoc(o, acc, "^&9VFS API:         ^&f".spec_bytes()); }
    let ghost acc = acc + "^&9VFS API:         ^&f".spec_bytes();
    push_str_bytes(out, VFS_VERSION);
    proof { lemma_add_assoc(o, acc, VFS_VERSION.spec_bytes()); }
    let ghost acc = acc + VFS_VERSION.spec_bytes();
    push_str_bytes(out, "\n");
    proof { lemma_add_assoc(o, acc, "\n".spec_bytes()); }
    let ghost acc = acc + "\n".spec_bytes();
    push_str_bytes(out, "^&9Systunnel ABI:   ^&f");
    proof { lemma_add_assoc(o, acc, "^&9Systunnel ABI:   ^&f".spec_bytes()); }
    let ghost acc = acc + "^&9Systunnel ABI:   ^&f".spec_bytes();
    push_str_bytes(out, SYSTUNNEL_VERSION);
    proof { lemma_add_assoc(o, acc, SYSTUNNEL_VERSION.spec_bytes()); }
    let ghost acc = acc + SYSTUNNEL_VERSION.spec_bytes();
    push_str_bytes(out, "\n");
    proof { lemma_add_assoc(o, acc, "\n".spec_bytes()); }
    let ghost acc = acc + "\n".spec_bytes();
    push_str_bytes(out, "^&9KernelShell API: ^&f");
    proof { lemma_add_assoc(o, acc, "^&9KernelShell API: ^&f".spec_bytes()); }
    let ghost acc = acc + "^&9KernelShell API: ^&f".spec_bytes();
    push_str_bytes(out, KERNEL_SHELL_VERSION);
    proof { lemma_add_assoc(o, acc, KERNEL_SHELL_VERSION.spec_bytes()); }
    let ghost acc = acc + KERNEL_SHELL_VERSION.spec_bytes();
    push_str_bytes(out, "\n");
    proof { lemma_add_assoc(o, acc, "\n".spec_bytes()); }
    let ghost acc = acc + "\n".spec_bytes();
    push_str_bytes(out, SEPARATOR);
    proof { lemma_add_assoc(o, acc, SEPARATOR.spec_bytes()); }
    let ghost acc = acc + SEPARATOR.spec_bytes();
}

fn info_hw(out: &mut Vec<u8>, sys: &SystemInfo)
    ensures
        final(out)@ == old(out)@ + info_hw_text(*sys),
{
    let ghost o = out@;
    push_str_bytes(out, SEPARATOR);
    let ghost acc = SEPARATOR.spec_bytes();
    push_str_bytes(out, "^&fHardware Resources\n");
    proof { lemma_add_assoc(o, acc, "^&fHardware Resources\n".spec_bytes()); }
    let ghost acc = acc + "^&fHardware Resources\n".spec_bytes();
    push_str_bytes(out, " ^&7CPU:\n");
    proof { lemma_add_assoc(o, acc, " ^&7CPU:\n".spec_bytes()); }
    let ghost acc = acc + " ^&7CPU:\n".spec_bytes();
    push_str_bytes(out, "  ^&9Vendor:         ^&f");
    proof { lemma_add_assoc(o, acc, "  ^&9Vendor:         ^&f".spec_bytes()); }
    let ghost acc = acc + "  ^&9Vendor:         ^&f".spec_bytes();
    push_str_bytes(out, sys.cpu.vendor);
    proof { lemma_add_assoc(o, acc, sys.cpu.vendor.spec_bytes()); }
    let ghost acc = acc + sys.cpu.vendor.spec_bytes();
    push_str_bytes(out, "\n");
    proof { lemma_add_assoc(o, acc, "\n".spec_bytes()); }
    let ghost acc = acc + "\n".spec_bytes();
    push_str_bytes(out, "  ^&9Brand:          ^&f");
    proof { lemma_add_assoc(o, acc, "  ^&9Brand:          ^&f".spec_bytes()); }
    let ghost acc = acc + "  ^&9Brand:          ^&f".spec_bytes();
    push_brand(out, &sys.cpu);
    proof { lemma_add_assoc(o, acc, brand_text(sys.cpu.brand@)); }
    let ghost acc = acc + brand_text(sys.cpu.brand@);
    push_str_bytes(out, "\n");
    proof { lemma_add_assoc(o, acc, "\n".spec_bytes()); }
    let ghost acc = acc + "\n".spec_bytes();
    push_str_bytes(out, "  ^&9Cores:          ^&f");
    proof { lemma_add_assoc(o, acc, "  ^&9Cores:          ^&f".spec_bytes()); }
    let ghost acc = acc + "  ^&9Cores:          ^&f".spec_bytes();
    push_decimal(out, sys.cpu.cores as u64);
    proof { lemma_add_assoc(o, acc, dec_digits(sys.cpu.cores as nat)); }
    let ghost acc = acc + dec_digits(sys.cpu.cores as nat);
    push_str_bytes(out, "\n");
    proof { lemma_add_assoc(o, acc, "\n".spec_bytes()); }
    let ghost acc = acc + "\n".spec_bytes();
    push_str_bytes(out, "  ^&9Threads:        ^&f");
    proof { lemma_add_assoc(o, acc, "  ^&9Threads:        ^&f".spec_bytes()); }
    let ghost acc = acc + "  ^&9Threads:        ^&f".spec_bytes();
    push_decimal(out, sys.cpu.threads as u64);
    proof { lemma_add_assoc(o, acc, dec_digits(sys.cpu.threads as nat)); }
    let ghost acc = acc + dec_digits(sys.cpu.threads as nat);
    push_str_bytes(out, "\n");
    proof { lemma_add_assoc(o, acc, "\n".spec_bytes()); }
    let ghost acc = acc + "\n".spec_bytes();
    push_str_bytes(out, "  ^&9Features:       ^&f");
    proof { lemma_add_assoc(o, acc, "  ^&9Features:       ^&f".spec_bytes()); }
    let ghost acc = acc + "  ^&9Features:       ^&f".spec_bytes();
    push_features(out, sys.cpu.features);
    proof { lemma_add_assoc(o, acc, features_text(sys.cpu.features)); }
    let ghost acc = acc + features_text(sys.cpu.features);
    push_str_bytes(out, "\n");
    proof { lemma_add_assoc(o, acc, "\n".spec_bytes()); }
    let ghost acc = acc + "\n".spec_bytes();
    push_str_bytes(out, "  ^&9Temp Sensor:    ^&f");
    proof { lemma_add_assoc(o, acc, "  ^&9Temp Sensor:    ^&f".spec_bytes()); }
    let ghost acc = acc + "  ^&9Temp Sensor:    ^&f".spec_bytes();
    push_bool(out, sys.cpu.temp_support);
    proof { lemma_add_assoc(o, acc, bool_text(sys.cpu.temp_support)); }
    let ghost acc = acc + bool_text(sys.cpu.temp_support);
    push_str_bytes(out, "\n");
    proof { lemma_add_assoc(o, acc, "\n".spec_bytes()); }
    let ghost acc = acc + "\n".spec_bytes();
    push_str_bytes(out, " ^&7MEM:\n");
    proof { lemma_add_assoc(o, acc, " ^&7MEM:\n".spec_bytes()); }
    let ghost acc = acc + " ^&7MEM:\n".spec_bytes();
    push_mem_lines(out, sys.mem);
    proof { lemma_add_assoc(o, acc, mem_lines(sys.mem)); }
    let ghost acc = acc + mem_lines(sys.mem);
    push_str_bytes(out, SEPARATOR);
    proof { lemma_add_assoc(o, acc, SEPARATOR.spec_bytes()); }
    let ghost acc = acc + SEPARATOR.spec_bytes();
}

fn info_help(out: &mut Vec<u8>)
    ensures
        final(out)@ == old(out)@ + info_help_text(),
{
    let ghost o = out@;
    push_str_bytes(out, SEPARATOR);
    push_help_line(out, "info", "System summary");
    push_help_line(out, "info hw", "Hardware information");
    push_help_line(out, "info ver", "Version information");
    push_str_bytes(out, SEPARATOR);
    assert(out@ =~= o + info_help_text());
}

/// The memory line of the summary.
pub open spec fn summary_mem_text(mem: Option<MemoryStats>) -> Seq<u8> {
    match mem {
        Some(s) => "^&9Memory:  ^&f".spec_bytes() + size_text(s.kernel as nat) + " / ".spec_bytes()
            + size_text((s.usable + s.kernel + s.boot_reclaim) as nat) + "\n".spec_bytes(),
        None => Seq::empty(),
    }
}

fn push_summary_mem(out: &mut Vec<u8>, mem: Option<MemoryStats>)
    requires
        mem matches Some(s) ==> s.usable + s.kernel + s.boot_reclaim <= u64::MAX,
    ensures
        final(out)@ == old(out)@ + summary_mem_text(mem),
{
    let ghost o = out@;
    if let Some(s) = mem {
        let total = s.usable + s.kernel + s.boot_reclaim;
        push_str_bytes(out, "^&9Memory:  ^&f");
        push_size(out, s.kernel);
        push_str_bytes(out, " / ");
        push_size(out, total);
        push_str_bytes(out, "\n");
    }
    assert(out@ =~= o + summary_mem_text(mem));
}

fn info_summary(out: &mut Vec<u8>, sys: &SystemInfo)
    requires
        sys.mem matches Some(s) ==> s.usable + s.kernel + s.boot_reclaim <= u64::MAX,
    ensures
        final(out)@ == old(out)@ + info_summary_text(*sys),
{
    let ghost o = out@;
    push_str_bytes(out, SEPARATOR);
    let ghost acc = SEPARATOR.spec_bytes();
    push_str_bytes(out, "^&9Kernel:  ^&f");
    proof { lemma_add_assoc(o, acc, "^&9Kernel:  ^&f".spec_bytes()); }
    let ghost acc = acc + "^&9Kernel:  ^&f".spec_bytes();
    push_str_bytes(out, crate::KERNEL_VERSION);
    proof { lemma_add_assoc(o, acc, crate::KERNEL_VERSION.spec_bytes()); }
    let ghost acc = acc + crate::KERNEL_VERSION.spec_bytes();
    push_str_bytes(out, "\n");
    proof { lemma_add_assoc(o, acc, "\n".spec_bytes()); }
    let ghost acc = acc + "\n".spec_bytes();
    push_str_bytes(out, "^&9OS:      ^&f");
    proof { lemma_add_assoc(o, acc, "^&9OS:      ^&f".spec_bytes()); }
    let ghost acc = acc + "^&9OS:      ^&f".spec_bytes();
    push_str_bytes(out, "Unknown/Not installed");
    proof { lemma_add_assoc(o, acc, "Unknown/Not installed".spec_bytes()); }
    let ghost acc = acc + "Unknown/Not installed".spec_bytes();
    push_str_bytes(out, "\n");
    proof { lemma_add_assoc(o, acc, "\n".spec_bytes()); }
    let ghost acc = acc + "\n".spec_bytes();
    push_str_bytes(out, "^&9Uptime:  ^&f");
    proof { lemma_add_assoc(o, acc, "^&9Uptime:  ^&f".spec_bytes()); }
    let ghost acc = acc + "^&9Uptime:  ^&f".spec_bytes();
    push_seconds(out, sys.uptime.0, sys.uptime.1);
    proof { lemma_add_assoc(o, acc, seconds_text(sys.uptime.0, sys.uptime.1)); }
    let ghost acc = acc + seconds_text(sys.uptime.0, sys.uptime.1);
    push_str_bytes(out, "s\n");
    proof { lemma_add_assoc(o, acc, "s\n".spec_bytes()); }
    let ghost acc = acc + "s\n".spec_bytes();
    push_summary_mem(out, sys.mem);
    proof { lemma_add_assoc(o, acc, summary_mem_text(sys.mem)); }
    let ghost acc = acc + summary_mem_text(sys.mem);
    push_str_bytes(out, "^&9Cpu:     ^&f");
    proof { lemma_add_assoc(o, acc, "^&9Cpu:     ^&f".spec_bytes()); }
    let ghost acc = acc + "^&9Cpu:     ^&f".spec_bytes();
    push_brand(out, &sys.cpu);
    proof { lemma_add_assoc(o, acc, brand_text(sys.cpu.brand@)); }
    let ghost acc = acc + brand_text(sys.cpu.brand@);
    push_str_bytes(out, "\n");
    proof { lemma_add_assoc(o, acc, "\n".spec_bytes()); }
    let ghost acc = acc + "\n".spec_bytes();
    push_str_bytes(out, "\n^&7Type '^&finfo help^&7' for more details.\n");
    proof { lemma_add_assoc(o, acc, "\n^&7Type '^&finfo help^&7' for more details.\n".spec_bytes()); }
    let ghost acc = acc + "\n^&7Type '^&finfo help^&7' for more details.\n".spec_bytes();
    push_str_bytes(out, SEPARATOR);
    proof { lemma_add_assoc(o, acc, SEPARATOR.spec_bytes()); }
    let ghost acc = acc + SEPARATOR.spec_bytes();
}

/// `info [ver|hw|help]`: system information.
pub fn command_info(log: &mut RingBuffer, args: &[&str], sys: &SystemInfo)
    requires
        old(log).wf(),
        info_sub(arg_views(args@)) != "ver"@ && info_sub(arg_views(args@)) != "hw"@ && info_sub(arg_views(args@)) != "help"@ ==> (sys.mem matches Some(
            s,
        ) ==> s.usable + s.kernel + s.boot_reclaim <= u64::MAX),
    ensures
        final(log).wf(),
        final(log).contents() == shell_wrote(old(log).contents(), info_text(arg_views(args@), *sys)),
        final(log).state() == bytes_pushed(old(log).state(), info_text(arg_views(args@), *sys)),
{
    let sub: &str = if args.len() > 0 { args[0] } else { "" };
    assert(sub@ == info_sub(arg_views(args@)));
    let mut out: Vec<u8> = Vec::new();
    if str_equals(sub, "ver") {
        info_ver(&mut out);
    } else if str_equals(sub, "hw") {
        info_hw(&mut out, sys);
    } else if str_equals(sub, "help") {
        info_help(&mut out);
    } else {
        info_summary(&mut out, sys);
    }
    assert(out@ =~= info_text(arg_views(args@), *sys));
    log.push_bytes(out.as_slice());
}

} // verus!
