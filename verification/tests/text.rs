use testos_console::keyboard::{handle_command, InputBuffer};
use testos_console::text::{same_bytes, starts_with};
use testos_console::vga_buffer::{Buffer, Color, ColorCode, ScreenChar, Writer, BUFFER_WIDTH};
use volatile::Volatile;

fn new_writer() -> Writer {
    let blank = ScreenChar {
        ascii_character: b' ',
        color_code: ColorCode::new(Color::Black, Color::Black),
    };
    let buffer =
        Buffer { chars: std::array::from_fn(|_| std::array::from_fn(|_| Volatile::new(blank))) };
    Writer::new(Box::leak(Box::new(buffer)))
}

fn row_text(writer: &Writer, row: usize) -> String {
    let mut text = String::new();
    for col in 0..BUFFER_WIDTH {
        text.push(writer.buffer.read_cell(row, col).ascii_character as char);
    }
    text.trim_end().to_string()
}

fn is_white_space(character: char) -> bool {
    let code = character as u32;
    (0x09..=0x0d).contains(&code)
        || code == 0x20
        || code == 0x85
        || code == 0xa0
        || code == 0x1680
        || (0x2000..=0x200a).contains(&code)
        || code == 0x2028
        || code == 0x2029
        || code == 0x202f
        || code == 0x205f
        || code == 0x3000
}

/// Runs `about` with the character before and behind it, and says whether
/// the command was recognised.
fn about_runs_between(character: char, writer: &mut Writer) -> bool {
    writer.clear_screen();
    let mut input = InputBuffer::new();
    let line = format!("{}about{}", character, character);
    for byte in line.as_bytes() {
        input.push(*byte);
    }
    handle_command(&mut input, writer);
    row_text(writer, 23) == "TESTOS3 - A simple OS written in Rust by Tavi_o6 :D"
}

#[test]
fn the_white_space_characters_are_those_of_the_standard_library() {
    let mut count = 0;
    for code in 0..=0x10ffffu32 {
        if let Some(character) = char::from_u32(code) {
            assert_eq!(character.is_whitespace(), is_white_space(character), "U+{:04X}", code);
            if is_white_space(character) {
                count += 1;
            }
        }
    }
    assert_eq!(count, 25);
}

#[test]
fn every_white_space_character_is_trimmed_and_no_other() {
    let mut writer = new_writer();
    for code in 0..0x3100u32 {
        if let Some(character) = char::from_u32(code) {
            assert_eq!(
                about_runs_between(character, &mut writer),
                is_white_space(character),
                "U+{:04X}",
                code
            );
        }
    }
}

#[test]
fn white_space_is_trimmed_from_each_end_alone() {
    let lines: [&[u8]; 4] = [b"about", b"\n\r about", b"about \x0b\x0c", b"\t about \t"];
    for line in lines {
        let mut writer = new_writer();
        let mut input = InputBuffer::new();
        for byte in line {
            input.push(*byte);
        }
        handle_command(&mut input, &mut writer);
        assert_eq!(row_text(&writer, 23), "TESTOS3 - A simple OS written in Rust by Tavi_o6 :D");
    }
}

#[test]
fn same_bytes_compares_length_and_content() {
    assert!(same_bytes(b"", b""));
    assert!(same_bytes(b"help", b"help"));
    assert!(!same_bytes(b"help", b"hel"));
    assert!(!same_bytes(b"hel", b"help"));
    assert!(!same_bytes(b"help", b"helq"));
    assert!(!same_bytes(b"xelp", b"help"));
}

#[test]
fn starts_with_accepts_prefixes_only() {
    assert!(starts_with(b"echo hi", b"echo "));
    assert!(starts_with(b"echo ", b"echo "));
    assert!(starts_with(b"anything", b""));
    assert!(!starts_with(b"echo", b"echo "));
    assert!(!starts_with(b"ech0 hi", b"echo "));
    assert!(!starts_with(b"", b"e"));
}
