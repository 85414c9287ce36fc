//! The shell's command dispatcher: splits a command line into words and
//! runs the command named by the first one.
use vstd::prelude::*;
use vstd::string::StringSliceAdditionalSpecFns;
use vstd::slice::slice_subrange;
use vstd::utf8::encode_utf8;
use crate::ring_buffer::{RingBuffer, LogState, bytes_pushed, empty_log_state};
use crate::strs::{split_whitespace, words};
use crate::process::{Scheduler, Task};
use crate::vfs::VfsNode;
use crate::text::push_str_bytes;
use crate::shell::{
    CommandResult, SystemInfo, shell_wrote, arg_views, str_equals, info_text, info_sub, version_text, help_text,
    ls_output, rd_output, tasks_text, stack_bounds_ok, kill_text, kill_removes, tasks_after_kill, command_info,
    command_version, command_help, command_reboot, command_ls, command_rd, command_tasks, command_kill,
    released_after_kill,
};
use crate::mdump::{command_mdump, mdump_address, mdump_error_text};

verus! {

/// What the shell prints for a command it does not know.
pub open spec fn unknown_text(cmd: Seq<char>) -> Seq<u8> {
    "^&cUnknown command: ".spec_bytes() + encode_utf8(cmd) + "\n^&fType 'help' for available commands\n".spec_bytes()
}

/// The log after a command wrote `text` and the colour reset that follows
/// every command that leaves nothing to the caller.
pub open spec fn finished(log: Seq<u8>, text: Seq<u8>) -> Seq<u8> {
    shell_wrote(shell_wrote(log, text), "^&f".spec_bytes())
}

/// Whether the `info` summary's memory total fits in 64 bits.
pub open spec fn summary_total_fits(sys: SystemInfo) -> bool {
    sys.mem matches Some(s) ==> s.usable + s.kernel + s.boot_reclaim <= u64::MAX
}

/// Whether `info` with these arguments prints the summary.
pub open spec fn info_is_summary(args: Seq<Seq<char>>) -> bool {
    info_sub(args) != "ver"@ && info_sub(args) != "hw"@ && info_sub(args) != "help"@
}

/// The commands the shell knows, and `Unknown` for any other word.
#[derive(Debug, Clone, Copy, PartialEq, Eq, Structural)]
pub enum ShellCommand {
    Info,
    Version,
    Help,
    Mdump,
    Reboot,
    Ls,
    Rd,
    Tasks,
    Kill,
    Clear,
    Unknown,
}

/// The command a word names.
pub open spec fn command_of(w: Seq<char>) -> ShellCommand {
    if w == "info"@ {
        ShellCommand::Info
    } else if w == "version"@ {
        ShellCommand::Version
    } else if w == "help"@ {
        ShellCommand::Help
    } else if w == "mdump"@ {
        ShellCommand::Mdump
    } else if w == "reboot"@ {
        ShellCommand::Reboot
    } else if w == "ls"@ {
        ShellCommand::Ls
    } else if w == "rd"@ {
        ShellCommand::Rd
    } else if w == "tasks"@ {
        ShellCommand::Tasks
    } else if w == "kill"@ {
        ShellCommand::Kill
    } else if w == "clear"@ {
        ShellCommand::Clear
    } else {
        ShellCommand::Unknown
    }
}

/// The command the word `w` names.
pub fn parse_command(w: &str) -> (c: ShellCommand)
    ensures
        c == command_of(w@),
{
    if str_equals(w, "info") {
        ShellCommand::Info
    } else if str_equals(w, "version") {
        ShellCommand::Version
    } else if str_equals(w, "help") {
        ShellCommand::Help
    } else if str_equals(w, "mdump") {
        ShellCommand::Mdump
    } else if str_equals(w, "reboot") {
        ShellCommand::Reboot
    } else if str_equals(w, "ls") {
        ShellCommand::Ls
    } else if str_equals(w, "rd") {
        ShellCommand::Rd
    } else if str_equals(w, "tasks") {
        ShellCommand::Tasks
    } else if str_equals(w, "kill") {
        ShellCommand::Kill
    } else if str_equals(w, "clear") {
        ShellCommand::Clear
    } else {
        ShellCommand::Unknown
    }
}

/// Whether running the command line `input` stays clear of the inputs on
/// which the commands would overflow: the `info` summary needs its memory
/// total to fit in 64 bits, and `tasks` needs each task's stack bounds in
/// order.
pub open spec fn dispatch_safe(input: Seq<char>, sys: SystemInfo, tasks: Seq<Task>) -> bool {
    let ws = words(input);
    &&& (ws.len() > 0 && command_of(ws[0]) == ShellCommand::Info && info_is_summary(ws.drop_first())
        ==> summary_total_fits(sys))
    &&& (ws.len() > 0 && command_of(ws[0]) == ShellCommand::Tasks ==> forall|i: int|
        0 <= i < tasks.len() ==> stack_bounds_ok(#[trigger] tasks[i]))
}

/// Whether the `info` arguments ask for the summary.
fn asks_summary(args: &[&str]) -> (r: bool)
    ensures
        r == info_is_summary(arg_views(args@)),
{
    proof {
        reveal_strlit("");
        reveal_strlit("ver");
        reveal_strlit("hw");
        reveal_strlit("help");
    }
    if args.len() == 0 {
        assert(info_sub(arg_views(args@)) == ""@);
        return true;
    }
    let sub = args[0];
    assert(sub@ == info_sub(arg_views(args@)));
    !(str_equals(sub, "ver") || str_equals(sub, "hw") || str_equals(sub, "help"))
}

/// Whether running the command line `input` stays clear of overflow (see
/// `dispatch_safe`).
pub fn dispatch_is_safe(input: &str, sys: &SystemInfo, scheduler: &Scheduler) -> (r: bool)
    ensures
        r == dispatch_safe(input@, *sys, scheduler.tasks@),
{
    let parts = split_whitespace(input);
    if parts.len() == 0 {
        return true;
    }
    let args = slice_subrange(parts.as_slice(), 1, parts.len());
    proof {
        assert(parts[0]@ == words(input@)[0]);
        assert(arg_views(args@) =~= words(input@).drop_first());
    }
    match parse_command(parts[0]) {
        ShellCommand::Info => {
            if !asks_summary(args) {
                return true;
            }
            match &sys.mem {
                Some(m) => match m.usable.checked_add(m.kernel) {
                    Some(x) => x.checked_add(m.boot_reclaim).is_some(),
                    None => false,
                },
                None => true,
            }
        },
        ShellCommand::Tasks => {
            let n = scheduler.tasks.len();
            let mut i: usize = 0;
            while i < n
                invariant
                    0 <= i <= n,
                    n == scheduler.tasks@.len(),
                    words(input@).len() > 0,
                    command_of(words(input@)[0]) == ShellCommand::Tasks,
                    forall|j: int| 0 <= j < i ==> stack_bounds_ok(#[trigger] scheduler.tasks@[j]),
                decreases n - i,
            {
                let t = &scheduler.tasks[i];
                let ok = t.stack_bottom <= t.stack_top && t.stack_pointer <= t.stack_top && (t.stack_top
                    - t.stack_pointer).checked_mul(100).is_some();
                if !ok {
                    assert(!stack_bounds_ok(scheduler.tasks@[i as int]));
                    return false;
                }
                i = i + 1;
            }
            true
        },
        _ => true,
    }
}

/// What running the command line `input` leaves: the shell log, the tasks,
/// and what the caller must do, given the log and the tasks before.
pub open spec fn dispatch_outcome(
    input: Seq<char>,
    sys: SystemInfo,
    root: Option<&VfsNode>,
    before: Seq<u8>,
    tasks: Seq<Task>,
) -> (Seq<u8>, Seq<Task>, CommandResult) {
    let ws = words(input);
    let args = ws.drop_first();
    if ws.len() == 0 {
        (before, tasks, CommandResult::Nothing)
    } else {
        match command_of(ws[0]) {
            ShellCommand::Info => (finished(before, info_text(args, sys)), tasks, CommandResult::Nothing),
            ShellCommand::Version => (finished(before, version_text()), tasks, CommandResult::Nothing),
            ShellCommand::Help => (finished(before, help_text()), tasks, CommandResult::Nothing),
            ShellCommand::Mdump => match mdump_address(args) {
                Some(a) => (before, tasks, CommandResult::DumpMemory(a)),
                None => (finished(before, mdump_error_text(args)), tasks, CommandResult::Nothing),
            },
            ShellCommand::Reboot => (
                shell_wrote(before, "^&eRebooting system...\n".spec_bytes()),
                tasks,
                CommandResult::Reboot,
            ),
            ShellCommand::Ls => (finished(before, ls_output(root)), tasks, CommandResult::Nothing),
            ShellCommand::Rd => (finished(before, rd_output(args, root)), tasks, CommandResult::Nothing),
            ShellCommand::Tasks => (finished(before, tasks_text(tasks)), tasks, CommandResult::Nothing),
            ShellCommand::Kill => (
                finished(before, kill_text(args, kill_removes(args, tasks))),
                tasks_after_kill(args, tasks),
                CommandResult::Nothing,
            ),
            ShellCommand::Clear => (Seq::empty(), tasks, CommandResult::ClearScreen),
            ShellCommand::Unknown => (finished(before, unknown_text(ws[0])), tasks, CommandResult::Nothing),
        }
    }
}

/// The whole log buffer after a command wrote `text` and the colour reset.
pub open spec fn finished_state(st: LogState, text: Seq<u8>) -> LogState {
    bytes_pushed(bytes_pushed(st, text), "^&f".spec_bytes())
}

/// The whole log buffer after running the command line `input`, given the
/// buffer before: a blank line and an `mdump` that leaves the dump to the
/// caller leave it as it was, `clear` empties it, and every other command
/// writes its text (followed by the colour reset, except for `reboot`).
pub open spec fn dispatch_log_state(
    input: Seq<char>,
    sys: SystemInfo,
    root: Option<&VfsNode>,
    st: LogState,
    tasks: Seq<Task>,
) -> LogState {
    let ws = words(input);
    let args = ws.drop_first();
    if ws.len() == 0 {
        st
    } else {
        match command_of(ws[0]) {
            ShellCommand::Info => finished_state(st, info_text(args, sys)),
            ShellCommand::Version => finished_state(st, version_text()),
            ShellCommand::Help => finished_state(st, help_text()),
            ShellCommand::Mdump => match mdump_address(args) {
                Some(a) => st,
                None => finished_state(st, mdump_error_text(args)),
            },
            ShellCommand::Reboot => bytes_pushed(st, "^&eRebooting system...\n".spec_bytes()),
            ShellCommand::Ls => finished_state(st, ls_output(root)),
            ShellCommand::Rd => finished_state(st, rd_output(args, root)),
            ShellCommand::Tasks => finished_state(st, tasks_text(tasks)),
            ShellCommand::Kill => finished_state(st, kill_text(args, kill_removes(args, tasks))),
            ShellCommand::Clear => empty_log_state(),
            ShellCommand::Unknown => finished_state(st, unknown_text(ws[0])),
        }
    }
}

/// The released stacks after running the command line `input`: only `kill`
/// releases one, that of the task it removes.
pub open spec fn dispatch_released(input: Seq<char>, tasks: Seq<Task>, released: Seq<u64>) -> Seq<u64> {
    let ws = words(input);
    if ws.len() > 0 && command_of(ws[0]) == ShellCommand::Kill {
        released_after_kill(ws.drop_first(), tasks, released)
    } else {
        released
    }
}

/// Runs the command line `input`: `info`, `version`, `help`, `mdump`,
/// `reboot`, `ls`, `rd`, `tasks`, `kill` and `clear`; anything else is
/// reported as unknown. A blank line does nothing. Each command that leaves
/// nothing to the caller ends with a colour reset.
pub fn dispatch(
    input: &str,
    log: &mut RingBuffer,
    scheduler: &mut Scheduler,
    sys: &SystemInfo,
    root: Option<&VfsNode>,
) -> (r: CommandResult)
    requires
        old(log).wf(),
        dispatch_safe(input@, *sys, old(scheduler).tasks@),
    ensures
        final(log).wf(),
        final(scheduler).cpu_slots() == old(scheduler).cpu_slots(),
        final(scheduler).id_counter() == old(scheduler).id_counter(),
        (final(log).contents(), final(scheduler).tasks@, r) == dispatch_outcome(
            input@,
            *sys,
            root,
            old(log).contents(),
            old(scheduler).tasks@,
        ),
        final(log).state() == dispatch_log_state(input@, *sys, root, old(log).state(), old(scheduler).tasks@),
        final(scheduler).released_stacks() == dispatch_released(
            input@,
            old(scheduler).tasks@,
            old(scheduler).released_stacks(),
        ),
{
    let parts = split_whitespace(input);
    if parts.len() == 0 {
        return CommandResult::Nothing;
    }
    let cmd: &str = parts[0];
    let args = slice_subrange(parts.as_slice(), 1, parts.len());
    proof {
        assert(cmd@ == words(input@)[0]);
        assert(arg_views(args@) =~= words(input@).drop_first());
    }
    let result = match parse_command(cmd) {
        ShellCommand::Info => {
            command_info(log, args, sys);
            CommandResult::Nothing
        },
        ShellCommand::Version => {
            command_version(log);
            CommandResult::Nothing
        },
        ShellCommand::Help => {
            command_help(log);
            CommandResult::Nothing
        },
        ShellCommand::Mdump => {
            match command_mdump(log, args) {
                Some(a) => {
                    return CommandResult::DumpMemory(a);
                },
                None => CommandResult::Nothing,
            }
        },
        ShellCommand::Reboot => {
            command_reboot(log);
            return CommandResult::Reboot;
        },
        ShellCommand::Ls => {
            command_ls(log, root);
            CommandResult::Nothing
        },
        ShellCommand::Rd => {
            command_rd(log, args, root);
            CommandResult::Nothing
        },
        ShellCommand::Tasks => {
            command_tasks(log, scheduler);
            CommandResult::Nothing
        },
        ShellCommand::Kill => {
            command_kill(log, args, scheduler);
            CommandResult::Nothing
        },
        ShellCommand::Clear => {
            log.clear();
            return CommandResult::ClearScreen;
        },
        ShellCommand::Unknown => {
            let mut out: Vec<u8> = Vec::new();
            push_str_bytes(&mut out, "^&cUnknown command: ");
            push_str_bytes(&mut out, cmd);
            push_str_bytes(&mut out, "\n^&fType 'help' for available commands\n");
            assert(out@ =~= unknown_text(cmd@));
            log.push_bytes(out.as_slice());
            CommandResult::Nothing
        },
    };
    log.push_str("^&f");
    result
}

} // verus!
