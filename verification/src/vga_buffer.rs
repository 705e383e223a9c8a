//! The text display: colours, cells, the memory-mapped grid and the writer
//! that keeps a cursor on its last row.
use crate::display::{blank, blank_row, displayable, is_grid, scrolled, with_cell, Display};
use volatile::Volatile;
use vstd::prelude::*;
use vstd::string::StringSliceAdditionalSpecFns;

verus! {

/// The sixteen colours of the text mode, in the order of their hardware
/// numbers (black is 0, white is 15).
#[allow(dead_code)]
#[derive(Clone, Copy, Debug, PartialEq, Eq, Structural)]
pub enum Color {
    Black,
    Blue,
    Green,
    Cyan,
    Red,
    Magenta,
    Brown,
    LightGray,
    DarkGray,
    LightBlue,
    LightGreen,
    LightCyan,
    LightRed,
    Pink,
    Yellow,
    White,
}

impl Color {
    /// The hardware number of the colour.
    pub open spec fn value(self) -> u8 {
        match self {
            Color::Black => 0,
            Color::Blue => 1,
            Color::Green => 2,
            Color::Cyan => 3,
            Color::Red => 4,
            Color::Magenta => 5,
            Color::Brown => 6,
            Color::LightGray => 7,
            Color::DarkGray => 8,
            Color::LightBlue => 9,
            Color::LightGreen => 10,
            Color::LightCyan => 11,
            Color::LightRed => 12,
            Color::Pink => 13,
            Color::Yellow => 14,
            Color::White => 15,
        }
    }
}

/// An attribute byte: background in the high four bits, foreground in the
/// low four.
#[derive(Clone, Copy, Debug, PartialEq, Eq, Structural)]
pub struct ColorCode(pub u8);

impl ColorCode {
    /// The attribute byte of a foreground on a background.
    pub open spec fn of(fg: Color, bg: Color) -> ColorCode {
        ColorCode((bg.value() * 16 + fg.value()) as u8)
    }

    pub fn new(fg: Color, bg: Color) -> (code: Self)
        ensures
            code == ColorCode::of(fg, bg),
    {
        let high: u8 = bg as u8;
        let low: u8 = fg as u8;
        assert(high == bg.value() && low == fg.value());
        assert((high << 4 | low) == high * 16 + low) by (bit_vector)
            requires
                high < 16,
                low < 16,
        ;
        Self(high << 4 | low)
    }
}

/// One character position of the display.
#[derive(Clone, Copy, Debug, PartialEq, Eq, Structural)]
pub struct ScreenChar {
    pub ascii_character: u8,
    pub color_code: ColorCode,
}

/// How many rows the display has.
pub const BUFFER_HEIGHT: usize = 25;

/// How many columns the display has.
pub const BUFFER_WIDTH: usize = 80;

/// The space character, which a blank cell shows.
pub const SPACE: u8 = 0x20;

/// The newline byte, which is never shown: it ends the line.
pub const NEWLINE: u8 = 0x0a;

/// The glyph shown in place of a byte of text that is not printable.
pub const PLACEHOLDER: u8 = 0xfe;

/// `volatile::Volatile`: a cell whose reads and writes the compiler may
/// not elide or reorder. Nothing of its inside is visible here.
#[verifier::external_type_specification]
#[verifier::external_body]
#[verifier::reject_recursive_types(T)]
pub struct ExVolatile<T: Copy>(Volatile<T>);

/// The character that a display cell holds.
pub uninterp spec fn cell_value(cell: Volatile<ScreenChar>) -> ScreenChar;

/// `Volatile::read`: one volatile read, which returns a copy of what the
/// cell holds.
#[verifier::external_body]
fn read_volatile(cell: &Volatile<ScreenChar>) -> (value: ScreenChar)
    ensures
        value == cell_value(*cell),
{
    cell.read()
}

/// `Volatile::write`: one volatile write, after which the cell holds the
/// value given.
#[verifier::external_body]
fn write_volatile(cell: &mut Volatile<ScreenChar>, value: ScreenChar)
    ensures
        cell_value(*final(cell)) == value,
{
    cell.write(value)
}

/// The character grid of the display, one volatile cell per position,
/// row by row.
pub struct Buffer {
    pub chars: [[Volatile<ScreenChar>; BUFFER_WIDTH]; BUFFER_HEIGHT],
}

impl View for Buffer {
    type V = Seq<Seq<ScreenChar>>;

    /// The grid as rows of characters: 25 rows of 80.
    open spec fn view(&self) -> Seq<Seq<ScreenChar>> {
        Seq::new(25, |row: int| Seq::new(80, |col: int| cell_value(self.chars[row][col])))
    }
}

impl Buffer {
    /// Reads one cell. The position must lie on the grid.
    pub fn read_cell(&self, row: usize, col: usize) -> (cell: ScreenChar)
        requires
            row < BUFFER_HEIGHT,
            col < BUFFER_WIDTH,
        ensures
            cell == self@[row as int][col as int],
    {
        read_volatile(&self.chars[row][col])
    }

    /// Writes one cell and leaves every other cell as it was. The position
    /// must lie on the grid.
    pub fn write_cell(&mut self, row: usize, col: usize, cell: ScreenChar)
        requires
            row < BUFFER_HEIGHT,
            col < BUFFER_WIDTH,
        ensures
            final(self)@ == with_cell(old(self)@, row as int, col as int, cell),
    {
        write_volatile(&mut self.chars[row][col], cell);
        proof {
            let expected = with_cell(old(self)@, row as int, col as int, cell);
            assert forall|r: int| 0 <= r < 25 implies #[trigger] self@[r] =~= expected[r] by {}
            assert(self@ =~= expected);
        }
    }

    /// Blanks one row: every cell of it becomes a space, black on black.
    pub fn clear_row(&mut self, row: usize)
        requires
            row < BUFFER_HEIGHT,
        ensures
            final(self)@ == old(self)@.update(row as int, blank_row()),
    {
        let space = ScreenChar {
            ascii_character: SPACE,
            color_code: ColorCode::new(Color::Black, Color::Black),
        };
        for col in 0..BUFFER_WIDTH
            invariant
                row < BUFFER_HEIGHT,
                space == blank(),
                forall|r: int| 0 <= r < 25 && r != row ==> self@[r] == old(self)@[r],
                forall|k: int| 0 <= k < col ==> self@[row as int][k] == blank(),
        {
            self.write_cell(row, col, space);
        }
        proof {
            let expected = old(self)@.update(row as int, blank_row());
            assert(self@[row as int] =~= blank_row());
            assert(self@ =~= expected);
        }
    }

    /// Moves every row up by one, so that the first row is lost, and
    /// blanks the last row.
    pub fn scroll_up(&mut self)
        ensures
            final(self)@ == scrolled(old(self)@),
    {
        for row in 1..BUFFER_HEIGHT
            invariant
                forall|r: int| 0 <= r < row - 1 ==> #[trigger] self@[r] == old(self)@[r + 1],
                forall|r: int| row - 1 <= r < 25 ==> #[trigger] self@[r] == old(self)@[r],
        {
            let ghost before = self@;
            assert(forall|r: int| 0 <= r < row - 1 ==> #[trigger] before[r] == old(self)@[r + 1]);
            assert(forall|r: int| row - 1 <= r < 25 ==> #[trigger] before[r] == old(self)@[r]);
            for col in 0..BUFFER_WIDTH
                invariant
                    1 <= row < BUFFER_HEIGHT,
                    is_grid(before),
                    forall|r: int| 0 <= r < 25 && r != row - 1 ==> self@[r] == before[r],
                    forall|k: int| 0 <= k < col ==> self@[row - 1][k] == before[row as int][k],
            {
                let character = self.read_cell(row, col);
                self.write_cell(row - 1, col, character);
            }
            assert(self@[row - 1] =~= before[row as int]);
            assert forall|r: int| 0 <= r < row implies #[trigger] self@[r] == old(self)@[r + 1] by {
                if r < row - 1 {
                    assert(self@[r] == before[r]);
                }
            }
            assert forall|r: int| row <= r < 25 implies #[trigger] self@[r] == old(self)@[r] by {
                assert(self@[r] == before[r]);
            }
        }
        self.clear_row(BUFFER_HEIGHT - 1);
        proof {
            let expected = scrolled(old(self)@);
            assert forall|r: int| 0 <= r < 25 implies #[trigger] self@[r] == expected[r] by {}
            assert(self@ =~= expected);
        }
    }
}

/// The console writer: the cursor's column on the last row of the grid,
/// the attribute of what is written next, and the grid itself.
pub struct Writer {
    pub column_position: usize,
    pub color_code: ColorCode,
    pub buffer: &'static mut Buffer,
}

impl View for Writer {
    type V = Display;

    open spec fn view(&self) -> Display {
        Display {
            grid: self.buffer@,
            column: self.column_position as nat,
            color: self.color_code,
        }
    }
}

impl Writer {
    /// A writer on the grid given, with the cursor at column 0 and light
    /// green on black as its attribute. What the grid shows stays.
    pub fn new(buffer: &'static mut Buffer) -> (writer: Writer)
        ensures
            writer@ == (Display {
                grid: old(buffer)@,
                column: 0,
                color: ColorCode::of(Color::LightGreen, Color::Black),
            }),
    {
        Writer {
            column_position: 0,
            color_code: ColorCode::new(Color::LightGreen, Color::Black),
            buffer,
        }
    }

    /// Sets the attribute of what is written from now on; nothing on the
    /// display changes.
    pub fn set_attribute(&mut self, fg: Color, bg: Color)
        ensures
            final(self)@ == old(self)@.with_color(ColorCode::of(fg, bg)),
    {
        self.color_code = ColorCode::new(fg, bg);
    }

    /// Writes one byte at the cursor. A newline starts a new line; on a
    /// full row any other byte starts a new line first.
    pub fn write_byte(&mut self, byte: u8)
        ensures
            final(self)@ == old(self)@.write_byte(byte),
            final(self)@.well_formed(),
    {
        if byte == NEWLINE {
            self.new_line();
        } else {
            if self.column_position >= BUFFER_WIDTH {
                self.new_line();
            }
            let row: usize = BUFFER_HEIGHT - 1;
            let col: usize = self.column_position;
            let character = ScreenChar { ascii_character: byte, color_code: self.color_code };
            self.buffer.write_cell(row, col, character);
            self.column_position += 1;
        }
    }

    /// Writes text: printable ASCII and newlines as they are, the
    /// placeholder glyph for every other byte.
    pub fn write_string(&mut self, s: &str)
        ensures
            final(self)@ == old(self)@.write_text(s.spec_bytes()),
    {
        self.write_text(s.as_bytes());
    }

    /// Writes the bytes of text as `write_string` does.
    pub fn write_text(&mut self, bytes: &[u8])
        ensures
            final(self)@ == old(self)@.write_text(bytes@),
    {
        let ghost shown = bytes@.map_values(|byte: u8| displayable(byte));
        for i in 0..bytes.len()
            invariant
                shown == bytes@.map_values(|byte: u8| displayable(byte)),
                self@ == old(self)@.write_bytes(shown.take(i as int)),
        {
            let byte = bytes[i];
            proof {
                assert(shown.take(i + 1).drop_last() =~= shown.take(i as int));
                assert(shown.take(i + 1).last() == displayable(byte));
            }
            if (0x20 <= byte && byte <= 0x7e) || byte == NEWLINE {
                self.write_byte(byte);
            } else {
                self.write_byte(PLACEHOLDER);
            }
        }
        assert(shown.take(bytes@.len() as int) =~= shown);
    }

    fn new_line(&mut self)
        ensures
            final(self)@ == old(self)@.new_line(),
    {
        self.buffer.scroll_up();
        self.column_position = 0;
    }

    /// Erases the character before the cursor and moves the cursor onto
    /// it. At column 0 nothing happens: the row above is never touched.
    pub fn backspace(&mut self)
        requires
            old(self).column_position <= BUFFER_WIDTH,
        ensures
            final(self)@ == old(self)@.backspace(),
            old(self).column_position == 0 ==> final(self)@ == old(self)@,
            forall|row: int| 0 <= row < 24 ==> final(self)@.grid[row] == old(self)@.grid[row],
    {
        if self.column_position > 0 {
            self.column_position -= 1;
            let row: usize = BUFFER_HEIGHT - 1;
            let col: usize = self.column_position;
            let space = ScreenChar { ascii_character: SPACE, color_code: self.color_code };
            self.buffer.write_cell(row, col, space);
        }
    }

    /// Blanks one row of the grid; the cursor stays.
    pub fn clear_row(&mut self, row: usize)
        requires
            row < BUFFER_HEIGHT,
        ensures
            final(self)@ == (Display {
                grid: old(self)@.grid.update(row as int, blank_row()),
                ..old(self)@
            }),
    {
        self.buffer.clear_row(row);
    }

    /// Blanks every row and puts the cursor at column 0.
    pub fn clear_screen(&mut self)
        ensures
            final(self)@ == old(self)@.clear_screen(),
    {
        for row in 0..BUFFER_HEIGHT
            invariant
                self.column_position == old(self).column_position,
                self.color_code == old(self).color_code,
                forall|r: int| 0 <= r < row ==> #[trigger] self@.grid[r] == blank_row(),
        {
            self.clear_row(row);
        }
        assert(self@.grid =~= old(self)@.clear_screen().grid);
        self.column_position = 0;
    }
}

} // verus!
