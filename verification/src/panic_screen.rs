//! What the kernel puts on screen when it panics.
use vstd::prelude::*;
use vstd::string::StringSliceAdditionalSpecFns;
use crate::console::{ConsoleBase, DrawOp, CELL_WIDTH, geometry_ok, newline_spec, text_ops};

verus! {

/// Red, for the `PANIC:` label.
pub const PANIC_RED: u32 = 0x880808;

/// Grey, for the rest.
pub const PANIC_GREY: u32 = 0x555555;

/// The console with the cursor `n` cells further right.
pub open spec fn advanced(c: ConsoleBase, n: nat) -> ConsoleBase {
    ConsoleBase { cursor_x: (c.cursor_x + CELL_WIDTH * n) as u64, ..c }
}

/// `text` drawn as it is in colour `fg`, and the console after it.
pub open spec fn label(c: ConsoleBase, fg: u32, text: Seq<u8>) -> (ConsoleBase, Seq<DrawOp>) {
    let c1 = ConsoleBase { current_fg: fg, ..c };
    (advanced(c1, text.len()), text_ops(c1, text))
}

/// The panic screen: on a new line `PANIC: ` in red and the message in
/// grey; when the place of the panic is known, `AT: ` and the file on the
/// next line; then `System halted.` on a line of its own.
pub open spec fn panic_screen(c: ConsoleBase, message: Seq<u8>, location: Option<Seq<u8>>) -> (
    ConsoleBase,
    Seq<DrawOp>,
) {
    let (c1, o1) = newline_spec(c);
    let (c2, o2) = label(c1, PANIC_RED, "PANIC: ".spec_bytes());
    let (c3, o3) = label(c2, PANIC_GREY, message);
    let (c5, o5) = match location {
        Some(file) => {
            let (c4, o4) = newline_spec(c3);
            let (c4a, o4a) = label(c4, PANIC_GREY, "AT: ".spec_bytes());
            let (c4b, o4b) = label(c4a, PANIC_GREY, file);
            (c4b, o4 + o4a + o4b)
        },
        None => (c3, Seq::empty()),
    };
    let (c6, o6) = newline_spec(c5);
    let (c7, o7) = label(c6, PANIC_GREY, "System halted.".spec_bytes());
    (c7, o1 + o2 + o3 + o5 + o6 + o7)
}

/// The bytes of the file name, when there is one.
pub open spec fn location_bytes(location: Option<&str>) -> Option<Seq<u8>> {
    match location {
        Some(f) => Some(f.spec_bytes()),
        None => None,
    }
}

/// Whether the texts fit on their lines without the cursor overflowing.
pub open spec fn panic_fits(c: ConsoleBase, message: Seq<u8>, location: Option<Seq<u8>>) -> bool {
    &&& geometry_ok(c)
    &&& c.cursor_x <= 0xFFFF_FFFF
    &&& message.len() <= 0xFFFF_FFFF
    &&& location matches Some(f) ==> f.len() <= 0xFFFF_FFFF
}

fn draw_label(c: &mut ConsoleBase, fg: u32, text: &str, ops: &mut Vec<DrawOp>)
    requires
        old(c).cursor_x + CELL_WIDTH * text.spec_bytes().len() <= u64::MAX,
    ensures
        (*final(c), final(ops)@) == ({
            let (c1, o1) = label(*old(c), fg, text.spec_bytes());
            (c1, old(ops)@ + o1)
        }),
{
    c.current_fg = fg;
    let mut o = c.draw_text(text.as_bytes());
    ops.append(&mut o);
}

fn line_break(c: &mut ConsoleBase, ops: &mut Vec<DrawOp>)
    requires
        geometry_ok(*old(c)),
    ensures
        geometry_ok(*final(c)),
        final(c).cursor_x == crate::console::MARGIN,
        (*final(c), final(ops)@) == ({
            let (c1, o1) = newline_spec(*old(c));
            (c1, old(ops)@ + o1)
        }),
{
    let mut o = c.newline();
    ops.append(&mut o);
}

/// Draws the panic screen (see `panic_screen`); the caller then halts.
pub fn kernel_panic(console: &mut ConsoleBase, message: &str, location: Option<&str>) -> (ops: Vec<DrawOp>)
    requires
        panic_fits(*old(console), message.spec_bytes(), location_bytes(location)),
    ensures
        (*final(console), ops@) == panic_screen(
            *old(console),
            message.spec_bytes(),
            location_bytes(location),
        ),
{
    proof {
        reveal_strlit("PANIC: ");
        reveal_strlit("AT: ");
        reveal_strlit("System halted.");
        vstd::utf8::is_ascii_chars_encode_utf8("PANIC: "@);
        vstd::utf8::is_ascii_chars_encode_utf8("AT: "@);
        vstd::utf8::is_ascii_chars_encode_utf8("System halted."@);
    }
    let mut ops: Vec<DrawOp> = Vec::new();
    line_break(console, &mut ops);
    draw_label(console, PANIC_RED, "PANIC: ", &mut ops);
    draw_label(console, PANIC_GREY, message, &mut ops);
    let ghost mid = ops@;
    match location {
        Some(file) => {
            line_break(console, &mut ops);
            draw_label(console, PANIC_GREY, "AT: ", &mut ops);
            draw_label(console, PANIC_GREY, file, &mut ops);
        },
        None => {},
    }
    line_break(console, &mut ops);
    draw_label(console, PANIC_GREY, "System halted.", &mut ops);
    proof {
        let loc = location_bytes(location);
        assert(ops@ =~= panic_screen(*old(console), message.spec_bytes(), loc).1);
    }
    ops
}

} // verus!
