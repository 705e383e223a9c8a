use testos_console::vga_buffer::{
    Buffer, Color, ColorCode, ScreenChar, Writer, BUFFER_HEIGHT, BUFFER_WIDTH,
};
use volatile::Volatile;

fn cell(character: u8, color: ColorCode) -> ScreenChar {
    ScreenChar { ascii_character: character, color_code: color }
}

fn blank() -> ScreenChar {
    cell(b' ', ColorCode::new(Color::Black, Color::Black))
}

fn green() -> ColorCode {
    ColorCode::new(Color::LightGreen, Color::Black)
}

fn new_writer() -> Writer {
    let buffer = Buffer {
        chars: std::array::from_fn(|_| std::array::from_fn(|_| Volatile::new(blank()))),
    };
    Writer::new(Box::leak(Box::new(buffer)))
}

fn row_text(writer: &Writer, row: usize) -> String {
    let mut text = String::new();
    for col in 0..BUFFER_WIDTH {
        text.push(writer.buffer.read_cell(row, col).ascii_character as char);
    }
    text.trim_end().to_string()
}

#[test]
fn write_byte_puts_the_byte_on_the_last_row_and_advances() {
    let mut writer = new_writer();
    writer.write_byte(b'A');
    assert_eq!(writer.column_position, 1);
    assert_eq!(writer.buffer.read_cell(24, 0), cell(b'A', green()));
    assert_eq!(writer.buffer.read_cell(24, 1), blank());
    writer.write_byte(b'B');
    assert_eq!(writer.column_position, 2);
    assert_eq!(writer.buffer.read_cell(24, 1), cell(b'B', green()));
}

#[test]
fn write_byte_newline_scrolls_and_resets_the_column() {
    let mut writer = new_writer();
    writer.write_byte(b'A');
    writer.write_byte(b'\n');
    assert_eq!(writer.column_position, 0);
    assert_eq!(writer.buffer.read_cell(23, 0), cell(b'A', green()));
    for col in 0..BUFFER_WIDTH {
        assert_eq!(writer.buffer.read_cell(24, col), blank());
    }
}

#[test]
fn write_byte_writes_raw_bytes_unchanged() {
    let mut writer = new_writer();
    writer.write_byte(0x01);
    writer.write_byte(0xff);
    assert_eq!(writer.buffer.read_cell(24, 0).ascii_character, 0x01);
    assert_eq!(writer.buffer.read_cell(24, 1).ascii_character, 0xff);
}

#[test]
fn column_after_n_bytes_follows_the_width() {
    for n in 0usize..=245 {
        let mut writer = new_writer();
        for i in 0..n {
            writer.write_byte(b'a' + (i % 26) as u8);
        }
        let expected = if n == 0 { 0 } else { (n - 1) % 80 + 1 };
        assert_eq!(writer.column_position, expected, "after {} bytes", n);
        assert_eq!(writer.column_position % 80, n % 80);
    }
}

#[test]
fn a_full_row_wraps_with_exactly_one_scroll() {
    let mut writer = new_writer();
    for _ in 0..80 {
        writer.write_byte(b'x');
    }
    assert_eq!(writer.column_position, 80);
    assert_eq!(row_text(&writer, 24), "x".repeat(80));
    assert_eq!(row_text(&writer, 23), "");
    writer.write_byte(b'y');
    assert_eq!(writer.column_position, 1);
    assert_eq!(row_text(&writer, 24), "y");
    assert_eq!(row_text(&writer, 23), "x".repeat(80));
    assert_eq!(row_text(&writer, 22), "");
}

#[test]
fn write_byte_wraps_from_a_column_beyond_the_width() {
    let mut writer = new_writer();
    writer.write_byte(b'a');
    writer.column_position = 200;
    writer.write_byte(b'b');
    assert_eq!(writer.column_position, 1);
    assert_eq!(row_text(&writer, 23), "a");
    assert_eq!(row_text(&writer, 24), "b");
}

#[test]
fn write_string_substitutes_what_is_not_printable() {
    let mut writer = new_writer();
    writer.write_string("a\tb\u{e9}~ \x7f");
    let expected: [u8; 9] = [b'a', 0xfe, b'b', 0xfe, 0xfe, b'~', b' ', 0xfe, b' '];
    for (col, byte) in expected.iter().enumerate() {
        assert_eq!(writer.buffer.read_cell(24, col).ascii_character, *byte, "column {}", col);
    }
    assert_eq!(writer.column_position, 8);
}

#[test]
fn write_string_keeps_newlines() {
    let mut writer = new_writer();
    writer.write_string("one\ntwo");
    assert_eq!(row_text(&writer, 23), "one");
    assert_eq!(row_text(&writer, 24), "two");
    assert_eq!(writer.column_position, 3);
}

#[test]
fn write_text_shows_bytes_as_write_string_does() {
    let mut writer = new_writer();
    writer.write_text(&[b'o', b'k', 0x00, 0x80, b'\n', b'!']);
    assert_eq!(writer.buffer.read_cell(23, 0).ascii_character, b'o');
    assert_eq!(writer.buffer.read_cell(23, 1).ascii_character, b'k');
    assert_eq!(writer.buffer.read_cell(23, 2).ascii_character, 0xfe);
    assert_eq!(writer.buffer.read_cell(23, 3).ascii_character, 0xfe);
    assert_eq!(writer.buffer.read_cell(24, 0).ascii_character, b'!');
    assert_eq!(writer.column_position, 1);
}

#[test]
fn set_attribute_colours_later_writes_only() {
    let mut writer = new_writer();
    writer.write_byte(b'a');
    writer.set_attribute(Color::Yellow, Color::Blue);
    assert_eq!(writer.color_code, ColorCode(0x1e));
    assert_eq!(writer.column_position, 1);
    writer.write_byte(b'b');
    assert_eq!(writer.buffer.read_cell(24, 0), cell(b'a', green()));
    assert_eq!(writer.buffer.read_cell(24, 1), cell(b'b', ColorCode(0x1e)));
}

#[test]
fn backspace_erases_the_last_character() {
    let mut writer = new_writer();
    writer.write_string("ab");
    writer.set_attribute(Color::White, Color::Black);
    writer.backspace();
    assert_eq!(writer.column_position, 1);
    assert_eq!(writer.buffer.read_cell(24, 0), cell(b'a', green()));
    assert_eq!(writer.buffer.read_cell(24, 1), cell(b' ', ColorCode(0x0f)));
}

#[test]
fn backspace_at_column_zero_changes_nothing() {
    let mut writer = new_writer();
    writer.write_string("above\n");
    assert_eq!(writer.column_position, 0);
    let mut before = Vec::new();
    for row in 0..BUFFER_HEIGHT {
        for col in 0..BUFFER_WIDTH {
            before.push(writer.buffer.read_cell(row, col));
        }
    }
    writer.backspace();
    writer.backspace();
    assert_eq!(writer.column_position, 0);
    let mut after = Vec::new();
    for row in 0..BUFFER_HEIGHT {
        for col in 0..BUFFER_WIDTH {
            after.push(writer.buffer.read_cell(row, col));
        }
    }
    assert_eq!(before, after);
    assert_eq!(row_text(&writer, 23), "above");
}

#[test]
fn backspace_from_the_full_row_erases_the_last_cell() {
    let mut writer = new_writer();
    for _ in 0..80 {
        writer.write_byte(b'x');
    }
    writer.backspace();
    assert_eq!(writer.column_position, 79);
    assert_eq!(writer.buffer.read_cell(24, 79), cell(b' ', green()));
    assert_eq!(writer.buffer.read_cell(24, 78), cell(b'x', green()));
}

#[test]
fn clear_row_blanks_one_row_and_keeps_the_cursor() {
    let mut writer = new_writer();
    writer.write_string("one\ntwo");
    writer.clear_row(23);
    assert_eq!(row_text(&writer, 23), "");
    assert_eq!(writer.buffer.read_cell(23, 0), blank());
    assert_eq!(row_text(&writer, 24), "two");
    assert_eq!(writer.column_position, 3);
}

#[test]
fn clear_screen_blanks_every_row_and_resets_the_cursor() {
    let mut writer = new_writer();
    for i in 0..30 {
        writer.write_string("line ");
        writer.write_byte(b'a' + i);
        writer.write_byte(b'\n');
    }
    writer.write_string("rest");
    writer.clear_screen();
    assert_eq!(writer.column_position, 0);
    assert_eq!(writer.color_code, green());
    for row in 0..BUFFER_HEIGHT {
        for col in 0..BUFFER_WIDTH {
            assert_eq!(writer.buffer.read_cell(row, col), blank());
        }
    }
}

#[test]
fn more_lines_than_rows_leave_the_last_twenty_five_visible() {
    let mut writer = new_writer();
    writer.write_string("old");
    let count = 40;
    for i in 0..count {
        if i > 0 {
            writer.write_byte(b'\n');
        }
        writer.write_string(&format!("line {}", i));
    }
    for row in 0..BUFFER_HEIGHT {
        let line = format!("line {}", count - 25 + row);
        assert_eq!(row_text(&writer, row), line);
        for col in 0..BUFFER_WIDTH {
            let expected =
                if col < line.len() { cell(line.as_bytes()[col], green()) } else { blank() };
            assert_eq!(writer.buffer.read_cell(row, col), expected);
        }
    }
    assert_eq!(writer.column_position, "line 39".len());
}

#[test]
fn twenty_six_lines_push_the_first_one_out() {
    let mut writer = new_writer();
    for i in 0..26u8 {
        if i > 0 {
            writer.write_byte(b'\n');
        }
        writer.write_byte(b'a' + i);
    }
    for row in 0..BUFFER_HEIGHT {
        assert_eq!(row_text(&writer, row), ((b'b' + row as u8) as char).to_string());
    }
}

#[test]
fn a_new_writer_starts_at_column_zero_in_light_green() {
    let mut buffer = Buffer {
        chars: std::array::from_fn(|_| std::array::from_fn(|_| Volatile::new(blank()))),
    };
    buffer.write_cell(3, 4, cell(b'k', ColorCode(0x4f)));
    let writer = Writer::new(Box::leak(Box::new(buffer)));
    assert_eq!(writer.column_position, 0);
    assert_eq!(writer.color_code, ColorCode(0x0a));
    assert_eq!(writer.buffer.read_cell(3, 4), cell(b'k', ColorCode(0x4f)));
    assert_eq!(writer.buffer.read_cell(24, 0), blank());
}
