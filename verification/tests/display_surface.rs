use testos_console::vga_buffer::{Buffer, Color, ColorCode, ScreenChar};
use volatile::Volatile;

fn cell(character: u8, color: ColorCode) -> ScreenChar {
    ScreenChar { ascii_character: character, color_code: color }
}

fn blank() -> ScreenChar {
    cell(b' ', ColorCode::new(Color::Black, Color::Black))
}

fn blank_buffer() -> Buffer {
    Buffer { chars: std::array::from_fn(|_| std::array::from_fn(|_| Volatile::new(blank()))) }
}

#[test]
fn color_code_packs_background_high_foreground_low() {
    assert_eq!(ColorCode::new(Color::White, Color::Black), ColorCode(0x0f));
    assert_eq!(ColorCode::new(Color::Black, Color::White), ColorCode(0xf0));
    assert_eq!(ColorCode::new(Color::Yellow, Color::Blue), ColorCode(0x1e));
    assert_eq!(ColorCode::new(Color::LightGreen, Color::Black), ColorCode(10));
}

#[test]
fn write_cell_then_read_cell_gives_the_cell_back() {
    let mut buffer = blank_buffer();
    let c = cell(b'x', ColorCode::new(Color::Pink, Color::Black));
    buffer.write_cell(3, 7, c);
    assert_eq!(buffer.read_cell(3, 7), c);
    assert_eq!(buffer.read_cell(3, 6), blank());
    assert_eq!(buffer.read_cell(2, 7), blank());
}

#[test]
fn scroll_up_moves_rows_and_blanks_the_last() {
    let mut buffer = blank_buffer();
    let white = ColorCode::new(Color::White, Color::Black);
    for row in 0..25 {
        for col in 0..80 {
            buffer.write_cell(row, col, cell(b'a' + row as u8, white));
        }
    }
    buffer.scroll_up();
    for row in 0..24 {
        for col in 0..80 {
            assert_eq!(buffer.read_cell(row, col), cell(b'a' + row as u8 + 1, white));
        }
    }
    for col in 0..80 {
        assert_eq!(buffer.read_cell(24, col), blank());
    }
}
