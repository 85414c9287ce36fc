//! The interactive kernel shell: the line being typed, echoing, and running
//! a finished line as a command.
use vstd::prelude::*;
use vstd::string::StringSliceAdditionalSpecFns;
use vstd::utf8::encode_utf8;
use crate::ring_buffer::{RingBuffer, lemma_last_n_twice, LogState, bytes_pushed, byte_popped};
use crate::strs::{trim, trimmed, string_push, string_pop};
use crate::process::{Scheduler, Task};
use crate::vfs::VfsNode;
use crate::text::push_str_bytes;
use crate::shell::{CommandResult, SystemInfo, shell_wrote};
use crate::dispatch::{dispatch, dispatch_outcome, dispatch_safe, dispatch_log_state, dispatch_released, dispatch_is_safe};
use crate::console::{ConsoleBase, DrawOp};

verus! {

/// A position on the screen, in character cells.
pub struct CursorPos {
    pub x: u64,
    pub y: u64,
}

/// The kernel shell. The line being typed is kept by the caller and handed
/// to `handle_char`.
pub struct KernelShell;

/// The greeting written when the shell starts.
pub open spec fn welcome_text() -> Seq<u8> {
    "^&fWelcome to the DeepX Kernel Shell!\n".spec_bytes() + "^&fType 'help' for a list of commands.\n".spec_bytes()
        + "^&f-----------------------------------\n".spec_bytes()
}

/// The prompt.
pub open spec fn prompt_text() -> Seq<u8> {
    "\n> ".spec_bytes()
}

/// What running a typed line leaves: nothing happens for a blank line,
/// otherwise the line without surrounding white space is dispatched.
pub open spec fn execute_outcome(
    line: Seq<char>,
    sys: SystemInfo,
    root: Option<&VfsNode>,
    before: Seq<u8>,
    tasks: Seq<Task>,
) -> (Seq<u8>, Seq<Task>, CommandResult) {
    if trimmed(line).len() == 0 {
        (before, tasks, CommandResult::Nothing)
    } else {
        dispatch_outcome(trimmed(line), sys, root, before, tasks)
    }
}

/// The log once a line is done: the prompt follows, unless the caller still
/// has to finish the command (a memory dump, a reboot).
pub open spec fn prompt_after(log: Seq<u8>, r: CommandResult) -> Seq<u8> {
    match r {
        CommandResult::Nothing | CommandResult::ClearScreen => shell_wrote(log, prompt_text()),
        _ => log,
    }
}

/// The whole log buffer after running a typed line: a blank line leaves it
/// as it was, anything else is dispatched without its surrounding white
/// space.
pub open spec fn execute_log_state(
    line: Seq<char>,
    sys: SystemInfo,
    root: Option<&VfsNode>,
    st: LogState,
    tasks: Seq<Task>,
) -> LogState {
    if trimmed(line).len() == 0 {
        st
    } else {
        dispatch_log_state(trimmed(line), sys, root, st, tasks)
    }
}

/// The released stacks after running a typed line.
pub open spec fn execute_released(line: Seq<char>, tasks: Seq<Task>, released: Seq<u64>) -> Seq<u64> {
    if trimmed(line).len() == 0 {
        released
    } else {
        dispatch_released(trimmed(line), tasks, released)
    }
}

/// The whole log buffer once a line is done: the prompt follows, unless the
/// caller still has to finish the command.
pub open spec fn prompt_after_state(st: LogState, r: CommandResult) -> LogState {
    match r {
        CommandResult::Nothing | CommandResult::ClearScreen => bytes_pushed(st, prompt_text()),
        _ => st,
    }
}

/// The log contents after its last byte is taken back (see
/// `RingBuffer::pop`).
pub open spec fn after_pop(log: RingBuffer) -> Seq<u8> {
    if log.has_wrapped() {
        seq![0u8] + log.contents().drop_last()
    } else if log.contents().len() > 0 {
        log.contents().drop_last()
    } else {
        log.contents()
    }
}

impl KernelShell {
    pub fn new() -> (s: Self) {
        KernelShell
    }

    /// Writes the greeting.
    pub fn init(&self, log: &mut RingBuffer)
        requires
            old(log).wf(),
        ensures
            final(log).wf(),
            final(log).contents() == shell_wrote(old(log).contents(), welcome_text()),
            final(log).state() == bytes_pushed(old(log).state(), welcome_text()),
    {
        let mut out: Vec<u8> = Vec::new();
        push_str_bytes(&mut out, "^&fWelcome to the DeepX Kernel Shell!\n");
        push_str_bytes(&mut out, "^&fType 'help' for a list of commands.\n");
        push_str_bytes(&mut out, "^&f-----------------------------------\n");
        assert(out@ =~= welcome_text());
        log.push_bytes(out.as_slice());
    }

    /// Writes `text` to the shell log.
    pub fn write_str(&self, log: &mut RingBuffer, text: &str)
        requires
            old(log).wf(),
        ensures
            final(log).wf(),
            final(log).contents() == shell_wrote(old(log).contents(), text.spec_bytes()),
            final(log).state() == bytes_pushed(old(log).state(), text.spec_bytes()),
    {
        log.push_str(text);
    }

    /// Writes the prompt.
    pub fn write_prompt(&self, log: &mut RingBuffer)
        requires
            old(log).wf(),
        ensures
            final(log).wf(),
            final(log).contents() == shell_wrote(old(log).contents(), prompt_text()),
            final(log).state() == bytes_pushed(old(log).state(), prompt_text()),
    {
        self.write_str(log, "\n> ");
    }

    /// Runs a typed line: a blank line does nothing, anything else is
    /// dispatched without its surrounding white space.
    pub fn execute(
        &self,
        cmd: &str,
        log: &mut RingBuffer,
        scheduler: &mut Scheduler,
        sys: &SystemInfo,
        root: Option<&VfsNode>,
    ) -> (r: CommandResult)
        requires
            old(log).wf(),
            dispatch_safe(trimmed(cmd@), *sys, old(scheduler).tasks@),
        ensures
            final(log).wf(),
            final(scheduler).cpu_slots() == old(scheduler).cpu_slots(),
            final(scheduler).id_counter() == old(scheduler).id_counter(),
            (final(log).contents(), final(scheduler).tasks@, r) == execute_outcome(
                cmd@,
                *sys,
                root,
                old(log).contents(),
                old(scheduler).tasks@,
            ),
            final(log).state() == execute_log_state(cmd@, *sys, root, old(log).state(), old(scheduler).tasks@),
            final(scheduler).released_stacks() == execute_released(
                cmd@,
                old(scheduler).tasks@,
                old(scheduler).released_stacks(),
            ),
    {
        let t = trim(cmd);
        if t.is_empty() {
            return CommandResult::Nothing;
        }
        dispatch(t, log, scheduler, sys, root)
    }

    /// Handles one typed character. A newline ends the line: it is echoed,
    /// run, and followed by the prompt (unless the caller still has to finish
    /// a memory dump or a reboot). A backspace takes back the last character
    /// of the line, if any, and the last byte of the log. Anything else is
    /// added to the line and echoed.
    pub fn handle_char(
        &self,
        c: char,
        input: &mut String,
        log: &mut RingBuffer,
        scheduler: &mut Scheduler,
        sys: &SystemInfo,
        root: Option<&VfsNode>,
    ) -> (r: CommandResult)
        requires
            old(log).wf(),
            c == '\n' ==> dispatch_safe(trimmed(old(input)@), *sys, old(scheduler).tasks@),
        ensures
            final(log).wf(),
            final(scheduler).cpu_slots() == old(scheduler).cpu_slots(),
            final(scheduler).id_counter() == old(scheduler).id_counter(),
            c == '\n' ==> ({
                let (l, t, res) = execute_outcome(
                    old(input)@,
                    *sys,
                    root,
                    shell_wrote(old(log).contents(), "\n".spec_bytes()),
                    old(scheduler).tasks@,
                );
                &&& final(input)@ == Seq::<char>::empty()
                &&& r == res
                &&& final(scheduler).tasks@ == t
                &&& final(log).contents() == prompt_after(l, res)
                &&& final(log).state() == prompt_after_state(
                    execute_log_state(
                        old(input)@,
                        *sys,
                        root,
                        bytes_pushed(old(log).state(), "\n".spec_bytes()),
                        old(scheduler).tasks@,
                    ),
                    res,
                )
                &&& final(scheduler).released_stacks() == execute_released(
                    old(input)@,
                    old(scheduler).tasks@,
                    old(scheduler).released_stacks(),
                )
            }),
            c != '\n' ==> final(scheduler).released_stacks() == old(scheduler).released_stacks(),
            c == '\x08' ==> ({
                &&& r == CommandResult::Nothing
                &&& final(scheduler).tasks@ == old(scheduler).tasks@
                &&& old(input)@.len() == 0 ==> final(input)@ == old(input)@ && final(log).contents() == old(
                    log,
                ).contents()
                &&& old(input)@.len() > 0 ==> final(input)@ == old(input)@.drop_last() && final(log).contents()
                    == after_pop(*old(log))
                &&& old(input)@.len() == 0 ==> final(log).state() == old(log).state()
                &&& old(input)@.len() > 0 ==> final(log).state() == byte_popped(old(log).state())
            }),
            c != '\n' && c != '\x08' ==> ({
                &&& r == CommandResult::Nothing
                &&& final(scheduler).tasks@ == old(scheduler).tasks@
                &&& final(input)@ == old(input)@.push(c)
                &&& final(log).contents() == shell_wrote(old(log).contents(), encode_utf8(seq![c]))
                &&& final(log).state() == bytes_pushed(old(log).state(), encode_utf8(seq![c]))
            }),
    {
        if c == '\n' {
            let command = input.clone();
            *input = String::new();
            self.write_str(log, "\n");
            let r = self.execute(command.as_str(), log, scheduler, sys, root);
            match r {
                CommandResult::Nothing | CommandResult::ClearScreen => {
                    self.write_prompt(log);
                },
                _ => {},
            }
            r
        } else if c == '\x08' {
            if input.as_str().is_empty() {
                return CommandResult::Nothing;
            }
            let _ = string_pop(input);
            log.pop();
            CommandResult::Nothing
        } else {
            string_push(input, c);
            let mut s = String::new();
            string_push(&mut s, c);
            assert(s@ =~= seq![c]);
            self.write_str(log, s.as_str());
            CommandResult::Nothing
        }
    }
}

/// Whether running the typed line stays clear of overflow: what `execute`
/// and a newline given to `handle_char` need.
pub fn line_is_safe(line: &str, sys: &SystemInfo, scheduler: &Scheduler) -> (r: bool)
    ensures
        r == dispatch_safe(trimmed(line@), *sys, scheduler.tasks@),
{
    dispatch_is_safe(trim(line), sys, scheduler)
}

/// Edits the line being typed without echoing: a backspace takes back its
/// last character, if any; any other character is added.
pub fn edit_line(c: char, input: &mut String)
    ensures
        c == '\x08' && old(input)@.len() == 0 ==> final(input)@ == old(input)@,
        c == '\x08' && old(input)@.len() > 0 ==> final(input)@ == old(input)@.drop_last(),
        c != '\x08' ==> final(input)@ == old(input)@.push(c),
{
    if c == '\x08' {
        if !input.as_str().is_empty() {
            let _ = string_pop(input);
        }
    } else {
        string_push(input, c);
    }
}

/// The text cursor: the cell it was drawn in last time is blanked (drawn
/// in black), an underscore is drawn in white at the console's cursor, and
/// that cell is remembered.
pub fn draw_cursor(console: &ConsoleBase, last: &mut CursorPos) -> (ops: Vec<DrawOp>)
    ensures
        ops@ == seq![
            DrawOp::Char { c: 32, x: old(last).x, y: old(last).y, fg: 0x000000, bg: console.current_bg },
            DrawOp::Char { c: 95, x: console.cursor_x, y: console.cursor_y, fg: 0xFFFFFF, bg: console.current_bg },
        ],
        final(last).x == console.cursor_x,
        final(last).y == console.cursor_y,
{
    let mut ops: Vec<DrawOp> = Vec::new();
    ops.push(DrawOp::Char { c: 32, x: last.x, y: last.y, fg: 0x000000, bg: console.current_bg });
    ops.push(DrawOp::Char { c: 95, x: console.cursor_x, y: console.cursor_y, fg: 0xFFFFFF, bg: console.current_bg });
    last.x = console.cursor_x;
    last.y = console.cursor_y;
    assert(ops@ =~= seq![
        DrawOp::Char { c: 32, x: old(last).x, y: old(last).y, fg: 0x000000, bg: console.current_bg },
        DrawOp::Char { c: 95, x: console.cursor_x, y: console.cursor_y, fg: 0xFFFFFF, bg: console.current_bg },
    ]);
    ops
}

} // verus!
