//! What a key press on a PS/2 keyboard types: US layout, scan code set 1,
//! no modifiers.
use vstd::prelude::*;

verus! {

/// The digit row, scan codes 0x02 to 0x0D.
pub open spec fn digit_row() -> Seq<char> {
    seq!['1', '2', '3', '4', '5', '6', '7', '8', '9', '0', '-', '=']
}

/// The top letter row, scan codes 0x10 to 0x1B.
pub open spec fn top_row() -> Seq<char> {
    seq!['q', 'w', 'e', 'r', 't', 'y', 'u', 'i', 'o', 'p', '[', ']']
}

/// The home row, scan codes 0x1E to 0x29.
pub open spec fn home_row() -> Seq<char> {
    seq!['a', 's', 'd', 'f', 'g', 'h', 'j', 'k', 'l', ';', '\'', '`']
}

/// The bottom row, scan codes 0x2B to 0x35.
pub open spec fn bottom_row() -> Seq<char> {
    seq!['\\', 'z', 'x', 'c', 'v', 'b', 'n', 'm', ',', '.', '/']
}

/// The character a key press with this scan code types: the rows above,
/// backspace (0x0E), tab (0x0F), enter as a newline (0x1C) and the space
/// bar (0x39); nothing for any other code, key releases among them.
pub open spec fn key_char(scancode: u8) -> Option<char> {
    if 0x02 <= scancode <= 0x0D {
        Some(digit_row()[scancode - 0x02])
    } else if scancode == 0x0E {
        Some('\x08')
    } else if scancode == 0x0F {
        Some('\t')
    } else if 0x10 <= scancode <= 0x1B {
        Some(top_row()[scancode - 0x10])
    } else if scancode == 0x1C {
        Some('\n')
    } else if 0x1E <= scancode <= 0x29 {
        Some(home_row()[scancode - 0x1E])
    } else if 0x2B <= scancode <= 0x35 {
        Some(bottom_row()[scancode - 0x2B])
    } else if scancode == 0x39 {
        Some(' ')
    } else {
        None
    }
}

/// The character a key press with this scan code types, if any.
pub fn scancode_to_char(scancode: u8) -> (c: Option<char>)
    ensures
        c == key_char(scancode),
{
    let digits: [char; 12] = ['1', '2', '3', '4', '5', '6', '7', '8', '9', '0', '-', '='];
    let top: [char; 12] = ['q', 'w', 'e', 'r', 't', 'y', 'u', 'i', 'o', 'p', '[', ']'];
    let home: [char; 12] = ['a', 's', 'd', 'f', 'g', 'h', 'j', 'k', 'l', ';', '\'', '`'];
    let bottom: [char; 11] = ['\\', 'z', 'x', 'c', 'v', 'b', 'n', 'm', ',', '.', '/'];
    assert(digits@ =~= digit_row());
    assert(top@ =~= top_row());
    assert(home@ =~= home_row());
    assert(bottom@ =~= bottom_row());
    if 0x02 <= scancode && scancode <= 0x0D {
        Some(digits[(scancode - 0x02) as usize])
    } else if scancode == 0x0E {
        Some('\x08')
    } else if scancode == 0x0F {
        Some('\t')
    } else if 0x10 <= scancode && scancode <= 0x1B {
        Some(top[(scancode - 0x10) as usize])
    } else if scancode == 0x1C {
        Some('\n')
    } else if 0x1E <= scancode && scancode <= 0x29 {
        Some(home[(scancode - 0x1E) as usize])
    } else if 0x2B <= scancode && scancode <= 0x35 {
        Some(bottom[(scancode - 0x2B) as usize])
    } else if scancode == 0x39 {
        Some(' ')
    } else {
        None
    }
}

} // verus!
