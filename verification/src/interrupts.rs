//! The wiring between the interrupt controllers and the keyboard handler:
//! which bytes go to which ports to set the controllers up, which vector
//! each hardware line then raises, and how an interrupt is acknowledged.
//! The port writes themselves belong to the caller.
use vstd::prelude::*;

verus! {

/// The command port of the first interrupt controller.
pub const PIC1_COMMAND: u16 = 0x20;

/// The data port of the first interrupt controller.
pub const PIC1_DATA: u16 = 0x21;

/// The command port of the second interrupt controller.
pub const PIC2_COMMAND: u16 = 0xa0;

/// The data port of the second interrupt controller.
pub const PIC2_DATA: u16 = 0xa1;

/// The port from which the scancode is read, once for each keyboard
/// interrupt.
pub const KEYBOARD_DATA: u16 = 0x60;

/// The vector of line 0 of the first controller; its lines 0 to 7 raise
/// the vectors from here on.
pub const PIC1_OFFSET: u8 = 32;

/// The vector of line 0 of the second controller, which carries the
/// hardware lines 8 to 15.
pub const PIC2_OFFSET: u8 = 40;

/// The hardware line of the keyboard.
pub const KEYBOARD_LINE: u8 = 1;

/// The vector that the keyboard raises.
pub const KEYBOARD_VECTOR: u8 = 33;

/// The vector of the double fault, fixed by the processor.
pub const DOUBLE_FAULT_VECTOR: u8 = 8;

/// Starts the initialisation of a controller, in cascade mode.
pub const INITIALIZE: u8 = 0x11;

/// The line of the first controller on which the second one hangs, as a
/// bit mask.
pub const CASCADE_MASK: u8 = 4;

/// The identity that the second controller is told: it hangs on line 2.
pub const CASCADE_IDENTITY: u8 = 2;

/// The mode of both controllers: 8086.
pub const MODE_8086: u8 = 0x01;

/// The mask of the first controller: a set bit silences a line. Only the
/// keyboard's bit is clear.
pub const PIC1_MASK: u8 = 0xfd;

/// The mask of the second controller: every line silenced.
pub const PIC2_MASK: u8 = 0xff;

/// The byte that acknowledges an interrupt.
pub const END_OF_INTERRUPT: u8 = 0x20;

/// One byte to be written to one port.
#[derive(Clone, Copy, Debug, PartialEq, Eq, Structural)]
pub struct PortWrite {
    pub port: u16,
    pub value: u8,
}

/// The writes that set both controllers up, in their order: the start of
/// the initialisation, the vector offsets, the cascade wiring and the
/// mode, each for the first controller and then for the second, and last
/// the two masks.
pub open spec fn pic_setup() -> Seq<PortWrite> {
    seq![
        PortWrite { port: PIC1_COMMAND, value: INITIALIZE },
        PortWrite { port: PIC2_COMMAND, value: INITIALIZE },
        PortWrite { port: PIC1_DATA, value: PIC1_OFFSET },
        PortWrite { port: PIC2_DATA, value: PIC2_OFFSET },
        PortWrite { port: PIC1_DATA, value: CASCADE_MASK },
        PortWrite { port: PIC2_DATA, value: CASCADE_IDENTITY },
        PortWrite { port: PIC1_DATA, value: MODE_8086 },
        PortWrite { port: PIC2_DATA, value: MODE_8086 },
        PortWrite { port: PIC1_DATA, value: PIC1_MASK },
        PortWrite { port: PIC2_DATA, value: PIC2_MASK },
    ]
}

/// The vector that a hardware line raises once the controllers are set
/// up.
pub open spec fn vector_of(line: u8) -> int
    recommends
        line < 16,
{
    if line < 8 {
        PIC1_OFFSET + line
    } else {
        PIC2_OFFSET + (line - 8)
    }
}

/// Whether a hardware line can interrupt under the two masks: its bit is
/// clear, and for a line of the second controller the cascade line, 2, is
/// open too.
pub open spec fn line_enabled(line: u8) -> bool
    recommends
        line < 16,
{
    if line < 8 {
        (PIC1_MASK >> line) & 1 == 0
    } else {
        (PIC2_MASK >> ((line - 8) as u8)) & 1 == 0 && (PIC1_MASK >> 2u8) & 1 == 0
    }
}

/// The writes that set the interrupt controllers up, to be performed in
/// this order before interrupts are enabled.
pub fn init_pic() -> (writes: Vec<PortWrite>)
    ensures
        writes@ == pic_setup(),
{
    let mut writes: Vec<PortWrite> = Vec::new();
    writes.push(PortWrite { port: PIC1_COMMAND, value: INITIALIZE });
    writes.push(PortWrite { port: PIC2_COMMAND, value: INITIALIZE });
    writes.push(PortWrite { port: PIC1_DATA, value: PIC1_OFFSET });
    writes.push(PortWrite { port: PIC2_DATA, value: PIC2_OFFSET });
    writes.push(PortWrite { port: PIC1_DATA, value: CASCADE_MASK });
    writes.push(PortWrite { port: PIC2_DATA, value: CASCADE_IDENTITY });
    writes.push(PortWrite { port: PIC1_DATA, value: MODE_8086 });
    writes.push(PortWrite { port: PIC2_DATA, value: MODE_8086 });
    writes.push(PortWrite { port: PIC1_DATA, value: PIC1_MASK });
    writes.push(PortWrite { port: PIC2_DATA, value: PIC2_MASK });
    assert(writes@ =~= pic_setup());
    writes
}

/// The write that acknowledges a keyboard interrupt; the handler performs
/// it last.
pub fn end_of_interrupt() -> (write: PortWrite)
    ensures
        write == (PortWrite { port: PIC1_COMMAND, value: END_OF_INTERRUPT }),
{
    PortWrite { port: PIC1_COMMAND, value: END_OF_INTERRUPT }
}

/// The vector that a hardware line raises.
pub fn vector_for_line(line: u8) -> (vector: u8)
    requires
        line < 16,
    ensures
        vector == vector_of(line),
{
    if line < 8 {
        PIC1_OFFSET + line
    } else {
        PIC2_OFFSET + (line - 8)
    }
}

/// No hardware line raises a vector that the processor keeps for its own
/// exceptions, which are those below 32; two lines never share a vector;
/// and the keyboard raises the vector at which its handler is installed.
pub proof fn lemma_vectors_do_not_collide(line: u8, other: u8)
    requires
        line < 16,
        other < 16,
    ensures
        32 <= vector_of(line) < 48,
        vector_of(line) != DOUBLE_FAULT_VECTOR,
        line != other ==> vector_of(line) != vector_of(other),
        vector_of(KEYBOARD_LINE) == KEYBOARD_VECTOR,
{
}

/// Under the masks of the set-up the keyboard's line can interrupt and no
/// other line can.
pub proof fn lemma_only_keyboard_enabled(line: u8)
    requires
        line < 16,
    ensures
        line_enabled(line) <==> line == KEYBOARD_LINE,
{
    assert(line < 8 ==> (((0xfdu8 >> line) & 1 == 0) <==> line == 1)) by (bit_vector);
    assert(line >= 8 && line < 16 ==> (0xffu8 >> ((line - 8) as u8)) & 1 == 1) by (bit_vector);
}

} // verus!
