//! Which console is on screen, and what the keyboard does to it: Ctrl+Shift
//! with F1, F2 or F3 switches between the recovery console, the log console
//! and the kernel shell; in the shell other key presses are typed.
use vstd::prelude::*;
use std::collections::VecDeque;

verus! {

/// The consoles that can be on screen.
#[derive(Debug, Clone, Copy, PartialEq, Eq, Structural)]
pub enum DisplayMode {
    RecoveryConsole,
    SafeConsole,
    KernelShell,
}

impl DisplayMode {
    /// The mode's short name.
    pub fn as_str(&self) -> (s: &'static str)
        ensures
            s@ == match *self {
                DisplayMode::RecoveryConsole => "RECOVERY"@,
                DisplayMode::SafeConsole => "LOGS"@,
                DisplayMode::KernelShell => "SHELL"@,
            },
    {
        match self {
            DisplayMode::RecoveryConsole => "RECOVERY",
            DisplayMode::SafeConsole => "LOGS",
            DisplayMode::KernelShell => "SHELL",
        }
    }
}

/// The display state: the mode on screen, whether Ctrl and Shift are held,
/// and whether the screen has to be redrawn in full.
#[derive(Debug, Clone, Copy, PartialEq, Eq, Structural)]
pub struct DisplayState {
    pub mode: DisplayMode,
    pub ctrl: bool,
    pub shift: bool,
    pub needs_full_redraw: bool,
}

/// What the caller must do for a key press.
#[derive(Debug, Clone, Copy, PartialEq, Eq, Structural)]
pub enum DisplayAction {
    /// Clear the console (the mode changed).
    ClearConsole,
    /// Look up the character this scan code types and queue it as shell input.
    TypeKey(u8),
}

/// Left Ctrl pressed and released.
pub const CTRL_PRESS: u8 = 0x1D;

pub const CTRL_RELEASE: u8 = 0x9D;

/// Left and right Shift pressed and released.
pub const LSHIFT_PRESS: u8 = 0x2A;

pub const RSHIFT_PRESS: u8 = 0x36;

pub const LSHIFT_RELEASE: u8 = 0xAA;

pub const RSHIFT_RELEASE: u8 = 0xB6;

/// The mode a function key selects (F1, F2, F3), if any.
pub open spec fn hotkey_mode(scancode: u8) -> Option<DisplayMode> {
    if scancode == 0x3B {
        Some(DisplayMode::RecoveryConsole)
    } else if scancode == 0x3C {
        Some(DisplayMode::SafeConsole)
    } else if scancode == 0x3D {
        Some(DisplayMode::KernelShell)
    } else {
        None
    }
}

/// The modifier keys after a scan code.
pub open spec fn modifiers_after(ctrl: bool, shift: bool, scancode: u8) -> (bool, bool) {
    if scancode == CTRL_PRESS {
        (true, shift)
    } else if scancode == CTRL_RELEASE {
        (false, shift)
    } else if scancode == LSHIFT_PRESS || scancode == RSHIFT_PRESS {
        (ctrl, true)
    } else if scancode == LSHIFT_RELEASE || scancode == RSHIFT_RELEASE {
        (ctrl, false)
    } else {
        (ctrl, shift)
    }
}

/// The state after switching to `mode`, and whether the console must be
/// cleared: nothing changes when the mode is already on screen.
pub open spec fn switched_to(s: DisplayState, mode: DisplayMode) -> (DisplayState, bool) {
    if s.mode == mode {
        (s, false)
    } else {
        (DisplayState { mode: mode, needs_full_redraw: true, ..s }, true)
    }
}

/// What one scan code does: the state after it and the actions it asks for.
pub open spec fn scancode_step(s: DisplayState, scancode: u8) -> (DisplayState, Seq<DisplayAction>) {
    let (ctrl, shift) = modifiers_after(s.ctrl, s.shift, scancode);
    let s1 = DisplayState { ctrl: ctrl, shift: shift, ..s };
    if scancode < 0x80 && ctrl && shift && hotkey_mode(scancode) is Some {
        let (s2, cleared) = switched_to(s1, hotkey_mode(scancode)->0);
        (s2, if cleared { seq![DisplayAction::ClearConsole] } else { Seq::empty() })
    } else if scancode < 0x80 && s1.mode == DisplayMode::KernelShell {
        (s1, seq![DisplayAction::TypeKey(scancode)])
    } else {
        (s1, Seq::empty())
    }
}

/// What a sequence of scan codes does, in order.
pub open spec fn scancodes_step(s: DisplayState, codes: Seq<u8>) -> (DisplayState, Seq<DisplayAction>)
    decreases codes.len(),
{
    if codes.len() == 0 {
        (s, Seq::empty())
    } else {
        let (s1, a1) = scancode_step(s, codes[0]);
        let (s2, a2) = scancodes_step(s1, codes.drop_first());
        (s2, a1 + a2)
    }
}

impl DisplayState {
    /// The log console on screen, no modifier held.
    pub fn new() -> (s: Self)
        ensures
            s == (DisplayState {
                mode: DisplayMode::SafeConsole,
                ctrl: false,
                shift: false,
                needs_full_redraw: false,
            }),
    {
        DisplayState { mode: DisplayMode::SafeConsole, ctrl: false, shift: false, needs_full_redraw: false }
    }

    /// Handles one scan code.
    pub fn handle_scancode(&mut self, scancode: u8) -> (actions: Vec<DisplayAction>)
        ensures
            (*final(self), actions@) == scancode_step(*old(self), scancode),
    {
        if scancode == CTRL_PRESS {
            self.ctrl = true;
        } else if scancode == CTRL_RELEASE {
            self.ctrl = false;
        } else if scancode == LSHIFT_PRESS || scancode == RSHIFT_PRESS {
            self.shift = true;
        } else if scancode == LSHIFT_RELEASE || scancode == RSHIFT_RELEASE {
            self.shift = false;
        }
        let mut actions: Vec<DisplayAction> = Vec::new();
        if scancode < 0x80 && self.ctrl && self.shift {
            let target = if scancode == 0x3B {
                Some(DisplayMode::RecoveryConsole)
            } else if scancode == 0x3C {
                Some(DisplayMode::SafeConsole)
            } else if scancode == 0x3D {
                Some(DisplayMode::KernelShell)
            } else {
                None
            };
            if let Some(mode) = target {
                if set_display_mode(self, mode) {
                    actions.push(DisplayAction::ClearConsole);
                }
                assert(actions@ =~= scancode_step(*old(self), scancode).1);
                return actions;
            }
        }
        if scancode < 0x80 && self.mode == DisplayMode::KernelShell {
            actions.push(DisplayAction::TypeKey(scancode));
        }
        assert(actions@ =~= scancode_step(*old(self), scancode).1);
        actions
    }
}

/// Switches to `mode`; returns whether the mode changed, in which case the
/// caller clears the console and the next render redraws everything.
pub fn set_display_mode(state: &mut DisplayState, mode: DisplayMode) -> (changed: bool)
    ensures
        (*final(state), changed) == switched_to(*old(state), mode),
{
    if state.mode == mode {
        return false;
    }
    state.mode = mode;
    state.needs_full_redraw = true;
    true
}

/// Handles every queued scan code, oldest first, and empties the queue;
/// returns the actions they ask for, in order.
pub fn process_keyboard_queue(state: &mut DisplayState, queue: &mut VecDeque<u8>) -> (actions: Vec<
    DisplayAction,
>)
    ensures
        final(queue)@ == Seq::<u8>::empty(),
        (*final(state), actions@) == scancodes_step(*old(state), old(queue)@),
{
    let mut actions: Vec<DisplayAction> = Vec::new();
    loop
        invariant
            ({
                let (s2, a2) = scancodes_step(*state, queue@);
                &&& s2 == scancodes_step(*old(state), old(queue)@).0
                &&& actions@ + a2 == scancodes_step(*old(state), old(queue)@).1
            }),
        ensures
            queue@ == Seq::<u8>::empty(),
            (*state, actions@) == scancodes_step(*old(state), old(queue)@),
        decreases queue@.len(),
    {
        let ghost s0 = *state;
        let ghost q0 = queue@;
        match queue.pop_front() {
            Some(code) => {
                let step = state.handle_scancode(code);
                let ghost a_rest = scancodes_step(*state, queue@).1;
                proof {
                    assert(queue@ =~= q0.drop_first());
                    assert(actions@ + (step@ + a_rest) =~= (actions@ + step@) + a_rest);
                }
                let mut k: usize = 0;
                let ghost a0 = actions@;
                while k < step.len()
                    invariant
                        0 <= k <= step@.len(),
                        actions@ == a0 + step@.take(k as int),
                    decreases step@.len() - k,
                {
                    actions.push(step[k]);
                    assert(step@.take(k + 1) =~= step@.take(k as int).push(step@[k as int]));
                    k = k + 1;
                }
                assert(step@.take(step@.len() as int) =~= step@);
            },
            None => {
                assert(actions@ + Seq::<DisplayAction>::empty() =~= actions@);
                break;
            },
        }
    }
    actions
}


/// Only Ctrl and Shift held with F1, F2 or F3 changes the console on screen,
/// and then to the console that key names.
pub proof fn mode_changes_only_by_hotkey(s: DisplayState, scancode: u8)
    requires
        scancode_step(s, scancode).0.mode != s.mode,
    ensures
        scancode < 0x80,
        modifiers_after(s.ctrl, s.shift, scancode) == (true, true),
        hotkey_mode(scancode) == Some(scancode_step(s, scancode).0.mode),
{
}

/// Keys are typed into the shell only while the shell is on screen.
pub proof fn typing_only_in_shell(s: DisplayState, scancode: u8, i: int)
    requires
        s.mode != DisplayMode::KernelShell,
        0 <= i < scancode_step(s, scancode).1.len(),
    ensures
        !(scancode_step(s, scancode).1[i] is TypeKey),
{
}

/// Switching to the console already on screen changes nothing and clears
/// nothing.
pub proof fn switching_to_current_mode_changes_nothing(s: DisplayState, mode: DisplayMode)
    requires
        s.mode == mode,
    ensures
        switched_to(s, mode) == (s, false),
{
}


/// With Ctrl and Shift held, F1 (0x3B) shows the recovery console, F2 (0x3C)
/// the log console and F3 (0x3D) the kernel shell, whatever was on screen;
/// when that changes the console, the screen is to be cleared.
pub proof fn function_keys_select_consoles(s: DisplayState)
    requires
        s.ctrl,
        s.shift,
    ensures
        scancode_step(s, 0x3B).0.mode == DisplayMode::RecoveryConsole,
        scancode_step(s, 0x3C).0.mode == DisplayMode::SafeConsole,
        scancode_step(s, 0x3D).0.mode == DisplayMode::KernelShell,
        s.mode != DisplayMode::RecoveryConsole ==> scancode_step(s, 0x3B).1 == seq![DisplayAction::ClearConsole],
        s.mode != DisplayMode::SafeConsole ==> scancode_step(s, 0x3C).1 == seq![DisplayAction::ClearConsole],
        s.mode != DisplayMode::KernelShell ==> scancode_step(s, 0x3D).1 == seq![DisplayAction::ClearConsole],
{
}

/// Pressing Ctrl (0x1D), then Shift (0x2A or 0x36), then F1, F2 or F3 shows
/// the recovery console, the log console or the kernel shell, from any state.
pub proof fn hotkey_sequence_selects_console(s: DisplayState, shift: u8)
    requires
        shift == 0x2A || shift == 0x36,
    ensures
        scancodes_step(s, seq![0x1Du8, shift, 0x3Bu8]).0.mode == DisplayMode::RecoveryConsole,
        scancodes_step(s, seq![0x1Du8, shift, 0x3Cu8]).0.mode == DisplayMode::SafeConsole,
        scancodes_step(s, seq![0x1Du8, shift, 0x3Du8]).0.mode == DisplayMode::KernelShell,
{
    let s1 = scancode_step(s, 0x1D).0;
    let s2 = scancode_step(s1, shift).0;
    assert(s2.ctrl && s2.shift);
    function_keys_select_consoles(s2);
    reveal_with_fuel(scancodes_step, 4);
    assert(seq![0x1Du8, shift, 0x3Bu8].drop_first() =~= seq![shift, 0x3Bu8]);
    assert(seq![shift, 0x3Bu8].drop_first() =~= seq![0x3Bu8]);
    assert(seq![0x3Bu8].drop_first() =~= Seq::<u8>::empty());
    assert(seq![0x1Du8, shift, 0x3Cu8].drop_first() =~= seq![shift, 0x3Cu8]);
    assert(seq![shift, 0x3Cu8].drop_first() =~= seq![0x3Cu8]);
    assert(seq![0x3Cu8].drop_first() =~= Seq::<u8>::empty());
    assert(seq![0x1Du8, shift, 0x3Du8].drop_first() =~= seq![shift, 0x3Du8]);
    assert(seq![shift, 0x3Du8].drop_first() =~= seq![0x3Du8]);
    assert(seq![0x3Du8].drop_first() =~= Seq::<u8>::empty());
}

} // verus!
