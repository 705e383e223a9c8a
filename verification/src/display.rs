//! What the display shows, as mathematics: a grid of characters, the
//! cursor's column on the last row and the current attribute, with the
//! effect of each writer operation on them.
use crate::vga_buffer::{Color, ColorCode, ScreenChar, NEWLINE, PLACEHOLDER, SPACE};
use vstd::prelude::*;

verus! {

/// The blank character: a space, black on black.
pub open spec fn blank() -> ScreenChar {
    ScreenChar { ascii_character: SPACE, color_code: ColorCode::of(Color::Black, Color::Black) }
}

/// A row of 80 blanks.
pub open spec fn blank_row() -> Seq<ScreenChar> {
    Seq::new(80, |col: int| blank())
}

/// A grid has 25 rows of 80 characters.
pub open spec fn is_grid(grid: Seq<Seq<ScreenChar>>) -> bool {
    &&& grid.len() == 25
    &&& forall|row: int| 0 <= row < 25 ==> (#[trigger] grid[row]).len() == 80
}

/// The grid with one cell replaced.
pub open spec fn with_cell(grid: Seq<Seq<ScreenChar>>, row: int, col: int, cell: ScreenChar) -> Seq<
    Seq<ScreenChar>,
> {
    grid.update(row, grid[row].update(col, cell))
}

/// The grid after one scroll: rows 1 to 24 become rows 0 to 23, and the
/// last row is blank.
pub open spec fn scrolled(grid: Seq<Seq<ScreenChar>>) -> Seq<Seq<ScreenChar>> {
    grid.subrange(1, 25).push(blank_row())
}

/// The byte that is shown for a byte of text: itself where it is printable
/// ASCII or a newline, the placeholder glyph 0xFE otherwise.
pub open spec fn displayable(byte: u8) -> u8 {
    if (0x20 <= byte <= 0x7e) || byte == NEWLINE {
        byte
    } else {
        PLACEHOLDER
    }
}

/// The state of the display: the grid, the cursor's column on the last
/// row, and the attribute that the next character gets.
pub struct Display {
    pub grid: Seq<Seq<ScreenChar>>,
    pub column: nat,
    pub color: ColorCode,
}

impl Display {
    /// The grid has its size and the cursor stands on the last row or
    /// just behind its end.
    pub open spec fn well_formed(self) -> bool {
        is_grid(self.grid) && self.column <= 80
    }

    /// The same display with another attribute for what is written next.
    pub open spec fn with_color(self, color: ColorCode) -> Display {
        Display { color, ..self }
    }

    /// A new line: one scroll, and the cursor back at column 0.
    pub open spec fn new_line(self) -> Display {
        Display { grid: scrolled(self.grid), column: 0, ..self }
    }

    /// The byte in the current attribute at the cursor, and the cursor one
    /// column further.
    pub open spec fn put(self, byte: u8) -> Display {
        Display {
            grid: with_cell(
                self.grid,
                24,
                self.column as int,
                ScreenChar { ascii_character: byte, color_code: self.color },
            ),
            column: self.column + 1,
            ..self
        }
    }

    /// One byte written: a newline starts a new line; any other byte is put
    /// at the cursor, after a new line where the row is full.
    pub open spec fn write_byte(self, byte: u8) -> Display {
        if byte == NEWLINE {
            self.new_line()
        } else if self.column >= 80 {
            self.new_line().put(byte)
        } else {
            self.put(byte)
        }
    }

    /// The bytes written one after the other.
    pub open spec fn write_bytes(self, bytes: Seq<u8>) -> Display
        decreases bytes.len(),
    {
        if bytes.len() == 0 {
            self
        } else {
            self.write_bytes(bytes.drop_last()).write_byte(bytes.last())
        }
    }

    /// Text written: each of its bytes as it is shown.
    pub open spec fn write_text(self, bytes: Seq<u8>) -> Display {
        self.write_bytes(bytes.map_values(|byte: u8| displayable(byte)))
    }

    /// The cell before the cursor blanked in the current attribute and the
    /// cursor moved onto it; nothing at column 0.
    pub open spec fn backspace(self) -> Display {
        if self.column > 0 {
            Display {
                grid: with_cell(
                    self.grid,
                    24,
                    self.column - 1,
                    ScreenChar { ascii_character: SPACE, color_code: self.color },
                ),
                column: (self.column - 1) as nat,
                ..self
            }
        } else {
            self
        }
    }

    /// Every row blank and the cursor at column 0.
    pub open spec fn clear_screen(self) -> Display {
        Display { grid: Seq::new(25, |row: int| blank_row()), column: 0, ..self }
    }
}

impl Display {
    /// Whether writing the byte scrolls the display: a newline does, and
    /// so does any byte on a full row.
    pub open spec fn scrolls_on(self, byte: u8) -> bool {
        byte == NEWLINE || self.column >= 80
    }

    /// How many times the display scrolls while the bytes are written.
    pub open spec fn scroll_count(self, bytes: Seq<u8>) -> nat
        decreases bytes.len(),
    {
        if bytes.len() == 0 {
            0
        } else {
            let before = self.write_bytes(bytes.drop_last());
            let scrolls: nat = if before.scrolls_on(bytes.last()) {
                1
            } else {
                0
            };
            self.scroll_count(bytes.drop_last()) + scrolls
        }
    }
}

/// What is shown for a byte of text is printable ASCII, a newline or the
/// placeholder glyph, never another control byte; and it is shown as
/// itself.
pub proof fn lemma_displayable_is_shown(byte: u8)
    ensures
        (0x20 <= displayable(byte) <= 0x7e) || displayable(byte) == NEWLINE || displayable(byte)
            == PLACEHOLDER,
        displayable(displayable(byte)) == displayable(byte),
        (displayable(byte) == NEWLINE) == (byte == NEWLINE),
{
}

/// Text of which every byte is shown as itself is written byte for byte.
pub proof fn lemma_plain_text_is_written_as_is(display: Display, bytes: Seq<u8>)
    requires
        forall|i: int| 0 <= i < bytes.len() ==> displayable(#[trigger] bytes[i]) == bytes[i],
    ensures
        display.write_text(bytes) == display.write_bytes(bytes),
{
    assert(bytes.map_values(|byte: u8| displayable(byte)) =~= bytes);
}

/// A line of text for one row: at most 80 bytes, none of them a newline.
pub open spec fn is_line(line: Seq<u8>) -> bool {
    &&& line.len() <= 80
    &&& forall|i: int| 0 <= i < line.len() ==> line[i] != NEWLINE
}

/// The row that shows a line written from column 0 on a blank row: its
/// bytes in the attribute given, then blanks.
pub open spec fn row_of(line: Seq<u8>, color: ColorCode) -> Seq<ScreenChar> {
    Seq::new(
        80,
        |col: int|
            if col < line.len() {
                ScreenChar { ascii_character: line[col], color_code: color }
            } else {
                blank()
            },
    )
}

/// The lines as one text, with a newline between each two of them.
pub open spec fn joined(lines: Seq<Seq<u8>>) -> Seq<u8>
    decreases lines.len(),
{
    if lines.len() == 0 {
        Seq::empty()
    } else if lines.len() == 1 {
        lines[0]
    } else {
        joined(lines.drop_last()).push(NEWLINE) + lines.last()
    }
}

/// Writing keeps the grid's size and the attribute, and leaves the cursor
/// on the row or just behind its end.
pub proof fn lemma_write_byte_keeps_form(display: Display, byte: u8)
    requires
        is_grid(display.grid),
    ensures
        display.write_byte(byte).well_formed(),
        display.write_byte(byte).color == display.color,
{
}

/// Writing bytes keeps the grid's size and the attribute.
pub proof fn lemma_write_bytes_keeps_form(display: Display, bytes: Seq<u8>)
    requires
        is_grid(display.grid),
    ensures
        is_grid(display.write_bytes(bytes).grid),
        display.write_bytes(bytes).color == display.color,
        display.column <= 80 ==> display.write_bytes(bytes).column <= 80,
    decreases bytes.len(),
{
    if bytes.len() > 0 {
        lemma_write_bytes_keeps_form(display, bytes.drop_last());
        lemma_write_byte_keeps_form(display.write_bytes(bytes.drop_last()), bytes.last());
    }
}

/// Writing one text after another is writing the two as one.
pub proof fn lemma_write_bytes_concat(display: Display, first: Seq<u8>, second: Seq<u8>)
    ensures
        display.write_bytes(first + second) == display.write_bytes(first).write_bytes(second),
    decreases second.len(),
{
    if second.len() == 0 {
        assert(first + second =~= first);
    } else {
        lemma_write_bytes_concat(display, first, second.drop_last());
        assert((first + second).drop_last() =~= first + second.drop_last());
        assert((first + second).last() == second.last());
    }
}

/// On an empty line, after `n` bytes none of which is a newline the
/// cursor stands at column 0 where `n` is 0, and at `(n - 1) mod 80 + 1`
/// otherwise: the column is `n mod 80`, but that a full row keeps the
/// cursor at column 80 until the next byte wraps it. The display has then
/// scrolled once for each wrap: `(n - 1) / 80` times.
pub proof fn lemma_column_after_bytes(display: Display, bytes: Seq<u8>)
    requires
        display.column == 0,
        forall|i: int| 0 <= i < bytes.len() ==> bytes[i] != NEWLINE,
    ensures
        display.write_bytes(bytes).column == (if bytes.len() == 0 {
            0
        } else {
            (bytes.len() - 1) % 80 + 1
        }),
        display.write_bytes(bytes).column % 80 == bytes.len() % 80,
        display.scroll_count(bytes) == (if bytes.len() == 0 {
            0
        } else {
            (bytes.len() - 1) / 80
        }),
    decreases bytes.len(),
{
    if bytes.len() > 0 {
        lemma_column_after_bytes(display, bytes.drop_last());
    }
}

/// A byte written on a full row scrolls the display exactly once and
/// lands at column 0 of the fresh last row; below column 80 it lands at
/// the cursor and nothing scrolls.
pub proof fn lemma_wrap_scrolls_once(display: Display, byte: u8)
    requires
        is_grid(display.grid),
        byte != NEWLINE,
    ensures
        display.column >= 80 ==> display.write_byte(byte).grid == scrolled(display.grid).update(
            24,
            blank_row().update(0, ScreenChar { ascii_character: byte, color_code: display.color }),
        ) && display.write_byte(byte).column == 1,
        display.column < 80 ==> display.write_byte(byte).grid == with_cell(
            display.grid,
            24,
            display.column as int,
            ScreenChar { ascii_character: byte, color_code: display.color },
        ) && display.write_byte(byte).column == display.column + 1,
{
    if display.column >= 80 {
        assert(display.write_byte(byte).grid =~= scrolled(display.grid).update(
            24,
            blank_row().update(0, ScreenChar { ascii_character: byte, color_code: display.color }),
        ));
    }
}

/// A line written from column 0 on a blank last row fills that row and
/// no other, and leaves the cursor behind the line.
pub proof fn lemma_line_on_blank_row(display: Display, line: Seq<u8>)
    requires
        is_grid(display.grid),
        display.column == 0,
        display.grid[24] == blank_row(),
        is_line(line),
    ensures
        display.write_bytes(line).grid == display.grid.update(24, row_of(line, display.color)),
        display.write_bytes(line).column == line.len(),
        display.write_bytes(line).color == display.color,
    decreases line.len(),
{
    if line.len() == 0 {
        assert(row_of(line, display.color) =~= blank_row());
        assert(display.grid.update(24, row_of(line, display.color)) =~= display.grid);
    } else {
        let shorter = line.drop_last();
        lemma_line_on_blank_row(display, shorter);
        let before = display.write_bytes(shorter);
        let cell = ScreenChar { ascii_character: line.last(), color_code: display.color };
        assert(row_of(shorter, display.color).update(shorter.len() as int, cell) =~= row_of(
            line,
            display.color,
        ));
        assert(before.write_byte(line.last()).grid =~= display.grid.update(
            24,
            row_of(line, display.color),
        ));
    }
}

/// After the lines are written, each of them but the first stands
/// on the row that its distance from the last line gives, as far as the
/// grid reaches: the last line on the last row, the one before it on the
/// row above, and so on.
proof fn lemma_lines_stack(display: Display, lines: Seq<Seq<u8>>)
    requires
        is_grid(display.grid),
        lines.len() >= 1,
        forall|i: int| 0 <= i < lines.len() ==> is_line(#[trigger] lines[i]),
    ensures
        is_grid(display.write_bytes(joined(lines)).grid),
        display.write_bytes(joined(lines)).color == display.color,
        forall|k: int|
            1 <= k < lines.len() && 25 - lines.len() + k >= 0 ==> display.write_bytes(
                joined(lines),
            ).grid[25 - lines.len() + k] == row_of(#[trigger] lines[k], display.color),
    decreases lines.len(),
{
    if lines.len() == 1 {
        lemma_write_bytes_keeps_form(display, lines[0]);
    } else {
        let earlier = lines.drop_last();
        let last = lines.last();
        assert(forall|i: int| 0 <= i < earlier.len() ==> is_line(#[trigger] earlier[i])) by {
            assert(forall|i: int| 0 <= i < earlier.len() ==> earlier[i] == lines[i]);
        }
        lemma_lines_stack(display, earlier);
        let before = display.write_bytes(joined(earlier));
        let ended = before.write_byte(NEWLINE);
        let text = joined(earlier).push(NEWLINE);
        assert(text.drop_last() =~= joined(earlier));
        assert(display.write_bytes(text) == ended);
        lemma_write_bytes_concat(display, text, last);
        let after = display.write_bytes(joined(lines));
        assert(after == ended.write_bytes(last));
        lemma_line_on_blank_row(ended, last);
        assert forall|k: int| 1 <= k < lines.len() && 25 - lines.len() + k >= 0 implies after.grid[25
            - lines.len() + k] == row_of(#[trigger] lines[k], display.color) by {
            let row = 25 - lines.len() + k;
            if k < lines.len() - 1 {
                assert(after.grid[row] == ended.grid[row]);
                assert(ended.grid[row] == before.grid[row + 1]);
                assert(earlier[k] == lines[k]);
                assert(before.grid[25 - earlier.len() + k] == row_of(earlier[k], display.color));
            }
        }
    }
}

/// Where more lines are written than the screen has rows, the screen
/// shows the 25 written last, the oldest of them on row 0 and the newest
/// on the last row: each from column 0 in the attribute of the writer,
/// the rest of its row blank.
pub proof fn lemma_last_lines_visible(display: Display, lines: Seq<Seq<u8>>)
    requires
        is_grid(display.grid),
        lines.len() > 25,
        forall|i: int| 0 <= i < lines.len() ==> is_line(#[trigger] lines[i]),
    ensures
        forall|row: int|
            0 <= row < 25 ==> #[trigger] display.write_bytes(joined(lines)).grid[row] == row_of(
                lines[lines.len() - 25 + row],
                display.color,
            ),
{
    lemma_lines_stack(display, lines);
    let shown = display.write_bytes(joined(lines));
    assert forall|row: int| 0 <= row < 25 implies #[trigger] shown.grid[row] == row_of(
        lines[lines.len() - 25 + row],
        display.color,
    ) by {
        let k = lines.len() - 25 + row;
        assert(25 - lines.len() + k == row);
        assert(shown.grid[25 - lines.len() + k] == row_of(lines[k], display.color));
    }
}

} // verus!
