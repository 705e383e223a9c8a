//! The keyboard side of the console: the input line, the routing of
//! decoded keys and the command shell.
use crate::display::Display;
use crate::text::{same_bytes, starts_with, text_of, trimmed};
use crate::vga_buffer::{Color, ColorCode, Writer, BUFFER_WIDTH, NEWLINE};
use vstd::prelude::*;
use vstd::slice::slice_subrange;
use vstd::string::StringSliceAdditionalSpecFns;
use vstd::utf8::{encode_utf8, valid_utf8};

verus! {

/// How many bytes the input line holds at most.
pub const INPUT_CAPACITY: usize = 256;

/// The sequence after one byte is appended to a line of bounded capacity:
/// a full line stays as it is.
pub open spec fn pushed(line: Seq<u8>, byte: u8) -> Seq<u8> {
    if line.len() < INPUT_CAPACITY {
        line.push(byte)
    } else {
        line
    }
}

/// The sequence after its last byte is removed: an empty line stays empty.
pub open spec fn popped(line: Seq<u8>) -> Seq<u8> {
    if line.len() > 0 {
        line.drop_last()
    } else {
        line
    }
}

/// The command line in progress: at most 256 bytes, in the order typed.
pub struct InputBuffer {
    buffer: [u8; INPUT_CAPACITY],
    len: usize,
}

impl View for InputBuffer {
    type V = Seq<u8>;

    /// The bytes of the line, oldest first.
    closed spec fn view(&self) -> Seq<u8> {
        self.buffer@.subrange(0, self.len as int)
    }
}

impl InputBuffer {
    #[verifier::type_invariant]
    spec fn within_capacity(&self) -> bool {
        self.len <= INPUT_CAPACITY
    }

    /// An empty line.
    pub fn new() -> (line: Self)
        ensures
            line@ == Seq::<u8>::empty(),
    {
        Self { buffer: [0;INPUT_CAPACITY], len: 0 }
    }

    /// How many bytes the line holds; never more than the capacity.
    pub fn len(&self) -> (n: usize)
        ensures
            n == self@.len(),
            n <= INPUT_CAPACITY,
    {
        proof {
            use_type_invariant(self);
        }
        self.len
    }

    /// Appends a byte; a full line drops it.
    pub fn push(&mut self, byte: u8)
        ensures
            final(self)@ == pushed(old(self)@, byte),
    {
        proof {
            use_type_invariant(&*self);
        }
        if self.len < INPUT_CAPACITY {
            self.buffer[self.len] = byte;
            self.len += 1;
            assert(self@ =~= old(self)@.push(byte));
        }
    }

    /// Removes the byte appended last; an empty line stays empty.
    pub fn pop(&mut self)
        ensures
            final(self)@ == popped(old(self)@),
    {
        proof {
            use_type_invariant(&*self);
        }
        if self.len > 0 {
            self.len -= 1;
            assert(self@ =~= old(self)@.drop_last());
        }
    }

    /// Empties the line.
    pub fn clear(&mut self)
        ensures
            final(self)@ == Seq::<u8>::empty(),
    {
        self.len = 0;
        assert(self@ =~= Seq::<u8>::empty());
    }

    /// The line as text: its bytes as a string slice where they are valid
    /// UTF-8, the empty string where they are not. The bytes themselves
    /// stay.
    pub fn as_str(&self) -> (text: &str)
        ensures
            text@ == text_of(self@),
            valid_utf8(self@) ==> text.spec_bytes() == self@,
    {
        proof {
            use_type_invariant(self);
        }
        let bytes = slice_subrange(self.buffer.as_slice(), 0, self.len);
        match core::str::from_utf8(bytes) {
            Ok(text) => {
                proof {
                    vstd::utf8::encode_utf8_decode_utf8(text@);
                }
                text
            },
            Err(_) => {
                proof {
                    reveal_strlit("");
                }
                assert(""@ =~= Seq::<char>::empty());
                ""
            },
        }
    }
}

/// The prompt, shown when the shell is ready for a line.
pub const PROMPT: &'static str = "> ";

/// The command that lists the commands.
pub const HELP_COMMAND: &'static str = "help";

/// The command that blanks the screen.
pub const CLEAR_COMMAND: &'static str = "clear";

/// The command that names the system.
pub const ABOUT_COMMAND: &'static str = "about";

/// What an echo command begins with; the rest of the line is echoed.
pub const ECHO_PREFIX: &'static str = "echo ";

/// The help text, line by line.
pub const HELP_HEADING: &'static str = "Available commands:\n";

pub const HELP_ON_HELP: &'static str = "  help    - Show this message\n";

pub const HELP_ON_CLEAR: &'static str = "  clear   - Clear screen\n";

pub const HELP_ON_ECHO: &'static str = "  echo    - Echo text\n";

pub const HELP_ON_ABOUT: &'static str = "  about   - About TESTOS3\n";

/// The line that names the system.
pub const ABOUT_TEXT: &'static str = "TESTOS3 - A simple OS written in Rust by Tavi_o6 :D\n";

/// What stands before an unknown command when it is reported.
pub const UNKNOWN_HEADING: &'static str = "Unknown command: ";

/// What follows an unknown command when it is reported.
pub const UNKNOWN_HINT: &'static str = "\nType 'help' for available commands.\n";

/// The command that a line of input holds: the bytes of its text without
/// the white space at either end. A line that is not valid UTF-8 holds
/// the empty command.
pub open spec fn command_of(line: Seq<u8>) -> Seq<u8> {
    encode_utf8(trimmed(text_of(line)))
}

/// The display after the help text.
pub open spec fn help_shown(display: Display) -> Display {
    display.with_color(ColorCode::of(Color::LightCyan, Color::Black)).write_text(
        HELP_HEADING.spec_bytes(),
    ).write_text(HELP_ON_HELP.spec_bytes()).write_text(HELP_ON_CLEAR.spec_bytes()).write_text(
        HELP_ON_ECHO.spec_bytes(),
    ).write_text(HELP_ON_ABOUT.spec_bytes())
}

/// The display after the complaint about a command that is not known.
pub open spec fn unknown_shown(display: Display, command: Seq<u8>) -> Display {
    display.with_color(ColorCode::of(Color::LightRed, Color::Black)).write_text(
        UNKNOWN_HEADING.spec_bytes(),
    ).write_text(command).write_text(UNKNOWN_HINT.spec_bytes())
}

/// The display after a command has run. The line is ended first. Then,
/// by the first rule that fits: `help` lists the commands; `clear` blanks
/// the screen; `about` names the system; a command that begins with
/// `echo ` has the rest of it written, and a newline; the empty command
/// writes nothing; anything else is reported as unknown.
pub open spec fn command_output(display: Display, command: Seq<u8>) -> Display {
    let display = display.write_byte(NEWLINE);
    if command == HELP_COMMAND.spec_bytes() {
        help_shown(display)
    } else if command == CLEAR_COMMAND.spec_bytes() {
        display.clear_screen()
    } else if command == ABOUT_COMMAND.spec_bytes() {
        display.with_color(ColorCode::of(Color::Yellow, Color::Black)).write_text(
            ABOUT_TEXT.spec_bytes(),
        )
    } else if ECHO_PREFIX.spec_bytes().is_prefix_of(command) {
        display.with_color(ColorCode::of(Color::LightGreen, Color::Black)).write_text(
            command.skip(ECHO_PREFIX.spec_bytes().len() as int),
        ).write_byte(NEWLINE)
    } else if command.len() == 0 {
        display
    } else {
        unknown_shown(display, command)
    }
}

/// The bytes of the command words and of the prompt.
pub proof fn lemma_command_words()
    ensures
        HELP_COMMAND.spec_bytes() == seq![0x68u8, 0x65, 0x6c, 0x70],
        CLEAR_COMMAND.spec_bytes() == seq![0x63u8, 0x6c, 0x65, 0x61, 0x72],
        ABOUT_COMMAND.spec_bytes() == seq![0x61u8, 0x62, 0x6f, 0x75, 0x74],
        ECHO_PREFIX.spec_bytes() == seq![0x65u8, 0x63, 0x68, 0x6f, 0x20],
        PROMPT.spec_bytes() == seq![0x3eu8, 0x20],
{
    reveal_strlit("help");
    reveal_strlit("clear");
    reveal_strlit("about");
    reveal_strlit("echo ");
    reveal_strlit("> ");
    vstd::utf8::is_ascii_chars_encode_utf8(HELP_COMMAND@);
    vstd::utf8::is_ascii_chars_encode_utf8(CLEAR_COMMAND@);
    vstd::utf8::is_ascii_chars_encode_utf8(ABOUT_COMMAND@);
    vstd::utf8::is_ascii_chars_encode_utf8(ECHO_PREFIX@);
    vstd::utf8::is_ascii_chars_encode_utf8(PROMPT@);
    assert(HELP_COMMAND.spec_bytes() =~= seq![0x68u8, 0x65, 0x6c, 0x70]);
    assert(CLEAR_COMMAND.spec_bytes() =~= seq![0x63u8, 0x6c, 0x65, 0x61, 0x72]);
    assert(ABOUT_COMMAND.spec_bytes() =~= seq![0x61u8, 0x62, 0x6f, 0x75, 0x74]);
    assert(ECHO_PREFIX.spec_bytes() =~= seq![0x65u8, 0x63, 0x68, 0x6f, 0x20]);
    assert(PROMPT.spec_bytes() =~= seq![0x3eu8, 0x20]);
}

/// No two of the rules by which a command is recognised fit the same
/// command: every command falls under exactly one of `help`, `clear`,
/// `about`, an echo, the empty command and an unknown one, whatever the
/// order in which the rules are tried.
pub proof fn lemma_command_rules_exclusive(command: Seq<u8>)
    ensures
        command == HELP_COMMAND.spec_bytes() ==> command != CLEAR_COMMAND.spec_bytes() && command
            != ABOUT_COMMAND.spec_bytes() && !ECHO_PREFIX.spec_bytes().is_prefix_of(command)
            && command.len() != 0,
        command == CLEAR_COMMAND.spec_bytes() ==> command != ABOUT_COMMAND.spec_bytes()
            && !ECHO_PREFIX.spec_bytes().is_prefix_of(command) && command.len() != 0,
        command == ABOUT_COMMAND.spec_bytes() ==> !ECHO_PREFIX.spec_bytes().is_prefix_of(command)
            && command.len() != 0,
        ECHO_PREFIX.spec_bytes().is_prefix_of(command) ==> command.len() != 0,
{
    lemma_command_words();
    if ECHO_PREFIX.spec_bytes().is_prefix_of(command) {
        assert(command[0] == ECHO_PREFIX.spec_bytes()[0]);
    }
    if command == CLEAR_COMMAND.spec_bytes() {
        assert(command[0] == 0x63);
    }
    if command == ABOUT_COMMAND.spec_bytes() {
        assert(command[0] == 0x61);
    }
}

/// The display after the prompt is written, in light green on black.
pub open spec fn prompted(display: Display) -> Display {
    display.with_color(ColorCode::of(Color::LightGreen, Color::Black)).write_text(
        PROMPT.spec_bytes(),
    )
}

/// Runs one command, given without surrounding white space, and writes
/// what it answers.
pub fn run_command(command: &str, writer: &mut Writer)
    ensures
        final(writer)@ == command_output(old(writer)@, command.spec_bytes()),
{
    let bytes = command.as_bytes();
    writer.write_byte(NEWLINE);
    if same_bytes(bytes, HELP_COMMAND.as_bytes()) {
        writer.set_attribute(Color::LightCyan, Color::Black);
        writer.write_string(HELP_HEADING);
        writer.write_string(HELP_ON_HELP);
        writer.write_string(HELP_ON_CLEAR);
        writer.write_string(HELP_ON_ECHO);
        writer.write_string(HELP_ON_ABOUT);
    } else if same_bytes(bytes, CLEAR_COMMAND.as_bytes()) {
        writer.clear_screen();
    } else if same_bytes(bytes, ABOUT_COMMAND.as_bytes()) {
        writer.set_attribute(Color::Yellow, Color::Black);
        writer.write_string(ABOUT_TEXT);
    } else if starts_with(bytes, ECHO_PREFIX.as_bytes()) {
        writer.set_attribute(Color::LightGreen, Color::Black);
        let rest = slice_subrange(bytes, ECHO_PREFIX.as_bytes().len(), bytes.len());
        assert(rest@ =~= bytes@.skip(ECHO_PREFIX.spec_bytes().len() as int));
        writer.write_text(rest);
        writer.write_byte(NEWLINE);
    } else if bytes.len() == 0 {
    } else {
        writer.set_attribute(Color::LightRed, Color::Black);
        writer.write_string(UNKNOWN_HEADING);
        writer.write_text(bytes);
        writer.write_string(UNKNOWN_HINT);
    }
}

/// Writes the prompt.
pub fn print_prompt(writer: &mut Writer)
    ensures
        final(writer)@ == prompted(old(writer)@),
{
    writer.set_attribute(Color::LightGreen, Color::Black);
    writer.write_string(PROMPT);
}

/// Runs the line that the input buffer holds as a command, empties the
/// buffer and writes the prompt for the next line.
pub fn handle_command(input: &mut InputBuffer, writer: &mut Writer)
    ensures
        final(input)@ == Seq::<u8>::empty(),
        final(writer)@ == prompted(command_output(old(writer)@, command_of(old(input)@))),
{
    let command = input.as_str().trim();
    run_command(command, writer);
    input.clear();
    print_prompt(writer);
}

/// A decoded key press: a character, or a key that stands for none (an
/// arrow, a modifier, a function key).
#[derive(Clone, Copy, Debug, PartialEq, Eq, Structural)]
pub enum Key {
    Unicode(char),
    RawKey,
}

/// The scancode decoder: `pc_keyboard::Keyboard` for scancode set 1 and
/// the US layout with 104 keys. It holds the bytes of a scancode that is
/// not complete yet and the state of the modifier keys; none of it is
/// visible here.
#[verifier::external_body]
pub struct Decoder {
    keyboard: pc_keyboard::Keyboard<pc_keyboard::layouts::Us104Key, pc_keyboard::ScancodeSet1>,
}

/// The event of a key, as `pc_keyboard::Keyboard::add_byte` gives it; it
/// is only handed on.
#[verifier::external_type_specification]
#[verifier::external_body]
pub struct ExKeyEvent(pc_keyboard::KeyEvent);

/// The error of `pc_keyboard::Keyboard::add_byte`; nothing is read from
/// it.
#[verifier::external_type_specification]
#[verifier::external_body]
pub struct ExDecodeError(pc_keyboard::Error);

/// `pc_keyboard::Keyboard::new`, for scancode set 1 and the US layout,
/// with the control key left alone.
#[verifier::external_body]
fn new_keyboard() -> Decoder {
    Decoder {
        keyboard: pc_keyboard::Keyboard::new(
            pc_keyboard::ScancodeSet1::new(),
            pc_keyboard::layouts::Us104Key,
            pc_keyboard::HandleControl::Ignore,
        ),
    }
}

/// What `pc_keyboard::Keyboard::add_byte` returns for a decoder and a
/// byte: the event of a key that the byte completes, nothing where more
/// bytes are awaited, or an error for a byte that fits no scancode.
pub uninterp spec fn scancode_event(decoder: Decoder, byte: u8) -> Result<
    Option<pc_keyboard::KeyEvent>,
    pc_keyboard::Error,
>;

/// The decoder as `pc_keyboard::Keyboard::add_byte` leaves it.
pub uninterp spec fn after_scancode(decoder: Decoder, byte: u8) -> Decoder;

/// What `pc_keyboard::Keyboard::process_keyevent` returns for a decoder
/// and the event of a key: the key of a press, a character or a raw key,
/// or nothing for a release.
pub uninterp spec fn event_key(decoder: Decoder, event: pc_keyboard::KeyEvent) -> Option<Key>;

/// The decoder as `pc_keyboard::Keyboard::process_keyevent` leaves it.
pub uninterp spec fn after_event(decoder: Decoder, event: pc_keyboard::KeyEvent) -> Decoder;

/// `pc_keyboard::Keyboard::add_byte`: takes one byte of a scancode. What
/// it returns and how it leaves the decoder depend on the decoder and the
/// byte alone; nothing more is said of either.
#[verifier::external_body]
fn add_byte(decoder: &mut Decoder, byte: u8) -> (event: Result<
    Option<pc_keyboard::KeyEvent>,
    pc_keyboard::Error,
>)
    ensures
        event == scancode_event(*old(decoder), byte),
        *final(decoder) == after_scancode(*old(decoder), byte),
{
    decoder.keyboard.add_byte(byte)
}

/// `pc_keyboard::Keyboard::process_keyevent`: decodes the event of a key.
/// What it returns and how it leaves the decoder depend on the decoder,
/// which holds the state of the modifier keys, and the event alone;
/// nothing more is said of either.
#[verifier::external_body]
fn process_keyevent(decoder: &mut Decoder, event: pc_keyboard::KeyEvent) -> (key: Option<Key>)
    ensures
        key == event_key(*old(decoder), event),
        *final(decoder) == after_event(*old(decoder), event),
{
    match decoder.keyboard.process_keyevent(event) {
        Some(pc_keyboard::DecodedKey::Unicode(character)) => Some(Key::Unicode(character)),
        Some(pc_keyboard::DecodedKey::RawKey(_)) => Some(Key::RawKey),
        None => None,
    }
}

impl Decoder {
    /// A decoder that has seen no byte yet.
    pub fn new() -> Self {
        new_keyboard()
    }
}

/// The key that a byte of a scancode gives: where the byte completes the
/// event of a key, what the decoder, as the byte has left it, makes of
/// that event; nothing where more bytes are awaited or the byte fits no
/// scancode.
pub open spec fn key_of(decoder: Decoder, byte: u8) -> Option<Key> {
    match scancode_event(decoder, byte) {
        Ok(Some(event)) => event_key(after_scancode(decoder, byte), event),
        _ => None,
    }
}

/// The decoder after a byte of a scancode: it has taken the byte, and the
/// event of a key where the byte completed one.
pub open spec fn decoder_fed(decoder: Decoder, byte: u8) -> Decoder {
    match scancode_event(decoder, byte) {
        Ok(Some(event)) => after_event(after_scancode(decoder, byte), event),
        _ => after_scancode(decoder, byte),
    }
}

/// The state of the shell: the input line and the display.
pub struct Console {
    pub line: Seq<u8>,
    pub display: Display,
}

/// The attribute in which typed characters are echoed: white on black.
pub open spec fn input_color() -> ColorCode {
    ColorCode::of(Color::White, Color::Black)
}

/// The byte that stands for a character on the input line and on the
/// display: the low eight bits of its code point.
pub open spec fn low_byte(character: char) -> u8 {
    ((character as u32) % 256) as u8
}

impl Console {
    /// The shell after the line is run as a command: the answer and the
    /// prompt are on the display and the line is empty.
    pub open spec fn command_run(self) -> Console {
        Console {
            line: Seq::empty(),
            display: prompted(command_output(self.display, command_of(self.line))),
        }
    }

    /// The shell after a character is typed. The attribute becomes that of
    /// input. Then a newline runs the line; a backspace removes the last
    /// byte of the line and erases it on the display, or does nothing on an
    /// empty line; any other character is appended to the line, unless it
    /// is full, and echoed.
    pub open spec fn typed(self, character: char) -> Console {
        let display = self.display.with_color(input_color());
        if character == '\n' {
            (Console { line: self.line, display }).command_run()
        } else if character == '\x08' {
            if self.line.len() > 0 {
                Console { line: self.line.drop_last(), display: display.backspace() }
            } else {
                Console { line: self.line, display }
            }
        } else {
            Console {
                line: pushed(self.line, low_byte(character)),
                display: display.write_byte(low_byte(character)),
            }
        }
    }

    /// The shell after a decoded key: a character is typed, any other key
    /// changes nothing.
    pub open spec fn key(self, key: Key) -> Console {
        match key {
            Key::Unicode(character) => self.typed(character),
            Key::RawKey => self,
        }
    }

    /// The shell after a byte of a scancode, given what the decoder made of
    /// it: a key, or nothing yet.
    pub open spec fn decoded(self, key: Option<Key>) -> Console {
        match key {
            Some(key) => self.key(key),
            None => self,
        }
    }
}

/// The low eight bits of a character's code point.
fn byte_of(character: char) -> (byte: u8)
    ensures
        byte == low_byte(character),
{
    let code: u32 = character as u32;
    let byte: u8 = #[verifier::truncate] (code as u8);
    assert(byte == code % 256) by (bit_vector)
        requires
            byte == (code as u8),
    ;
    byte
}

/// Routes one decoded key to the input line and the display. Where the
/// key erases a character, the cursor must stand on the row or just
/// behind its end.
pub fn handle_key(key: Key, input: &mut InputBuffer, writer: &mut Writer)
    requires
        key == Key::Unicode('\x08') && old(input)@.len() > 0 ==> old(writer).column_position
            <= BUFFER_WIDTH,
    ensures
        (Console { line: final(input)@, display: final(writer)@ }) == (Console {
            line: old(input)@,
            display: old(writer)@,
        }).key(key),
        old(writer).column_position <= BUFFER_WIDTH ==> final(writer).column_position
            <= BUFFER_WIDTH,
{
    match key {
        Key::Unicode(character) => {
            writer.set_attribute(Color::White, Color::Black);
            if character == '\n' {
                handle_command(input, writer);
            } else if character == '\x08' {
                if input.len() > 0 {
                    input.pop();
                    writer.backspace();
                }
            } else {
                let byte = byte_of(character);
                input.push(byte);
                writer.write_byte(byte);
            }
        },
        Key::RawKey => {},
    }
}

/// Takes the byte that the keyboard sent with an interrupt: the decoder
/// gets it, then the event of a key where the byte completed one, and
/// the key of a press is routed. Returns the key, if there was one. The cursor must stand on the row or just
/// behind its end, as every operation of the writer leaves it.
pub fn handle_keyboard_interrupt(
    scancode: u8,
    decoder: &mut Decoder,
    input: &mut InputBuffer,
    writer: &mut Writer,
) -> (key: Option<Key>)
    requires
        old(writer).column_position <= BUFFER_WIDTH,
    ensures
        key == key_of(*old(decoder), scancode),
        *final(decoder) == decoder_fed(*old(decoder), scancode),
        (Console { line: final(input)@, display: final(writer)@ }) == (Console {
            line: old(input)@,
            display: old(writer)@,
        }).decoded(key),
        final(writer).column_position <= BUFFER_WIDTH,
{
    let key = match add_byte(decoder, scancode) {
        Ok(Some(event)) => process_keyevent(decoder, event),
        _ => None,
    };
    match key {
        Some(key) => handle_key(key, input, writer),
        None => {},
    }
    key
}

/// The line after the bytes are appended to it one by one.
pub open spec fn pushed_all(line: Seq<u8>, bytes: Seq<u8>) -> Seq<u8>
    decreases bytes.len(),
{
    if bytes.len() == 0 {
        line
    } else {
        pushed(pushed_all(line, bytes.drop_last()), bytes.last())
    }
}

/// Bytes appended to an empty line are all kept while they fit; of more
/// than the capacity the first 256 are kept and the rest dropped.
pub proof fn lemma_pushes_keep_first(bytes: Seq<u8>)
    ensures
        pushed_all(Seq::empty(), bytes) == (if bytes.len() <= INPUT_CAPACITY {
            bytes
        } else {
            bytes.take(INPUT_CAPACITY as int)
        }),
    decreases bytes.len(),
{
    if bytes.len() == 0 {
        assert(pushed_all(Seq::empty(), bytes) =~= bytes);
    } else {
        lemma_pushes_keep_first(bytes.drop_last());
        if bytes.len() <= INPUT_CAPACITY {
            assert(bytes.drop_last().push(bytes.last()) =~= bytes);
        } else {
            assert(bytes.drop_last().take(INPUT_CAPACITY as int) =~= bytes.take(
                INPUT_CAPACITY as int,
            ));
            if bytes.len() == INPUT_CAPACITY + 1 {
                assert(bytes.drop_last() =~= bytes.take(INPUT_CAPACITY as int));
            }
        }
    }
}

/// A character that is typed onto the line and shown in one cell: not a
/// newline or a backspace, and not one whose low byte is the newline.
pub open spec fn is_plain(character: char) -> bool {
    character != '\n' && character != '\x08' && low_byte(character) != NEWLINE
}

impl Console {
    /// The shell after the characters are typed one by one.
    pub open spec fn typed_all(self, characters: Seq<char>) -> Console
        decreases characters.len(),
    {
        if characters.len() == 0 {
            self
        } else {
            self.typed_all(characters.drop_last()).typed(characters.last())
        }
    }

    /// The shell after backspace is typed so many times.
    pub open spec fn erased(self, count: nat) -> Console
        decreases count,
    {
        if count == 0 {
            self
        } else {
            self.erased((count - 1) as nat).typed('\x08')
        }
    }
}

/// Plain characters that fit on the line and on the row are appended to
/// the line and move the cursor one column each.
pub proof fn lemma_typed_plain(console: Console, characters: Seq<char>)
    requires
        console.display.column + characters.len() <= 80,
        console.line.len() + characters.len() <= INPUT_CAPACITY,
        forall|i: int| 0 <= i < characters.len() ==> is_plain(#[trigger] characters[i]),
    ensures
        console.typed_all(characters).line == console.line + characters.map_values(
            |character: char| low_byte(character),
        ),
        console.typed_all(characters).display.column == console.display.column
            + characters.len(),
    decreases characters.len(),
{
    let bytes = characters.map_values(|character: char| low_byte(character));
    if characters.len() == 0 {
        assert(console.line + bytes =~= console.line);
    } else {
        let earlier = characters.drop_last();
        lemma_typed_plain(console, earlier);
        assert(is_plain(characters[characters.len() - 1]));
        assert((console.line + earlier.map_values(|character: char| low_byte(character))).push(
            low_byte(characters.last()),
        ) =~= console.line + bytes);
    }
}

/// Backspaces, no more of them than the line has bytes or the cursor has
/// columns behind it, remove that many bytes from the end of the line
/// and move the cursor back as many columns.
pub proof fn lemma_erased(console: Console, count: nat)
    requires
        count <= console.line.len(),
        count <= console.display.column,
    ensures
        console.erased(count).line == console.line.take(console.line.len() - count),
        console.erased(count).display.column == console.display.column - count,
    decreases count,
{
    if count == 0 {
        assert(console.line.take(console.line.len() as int) =~= console.line);
    } else {
        lemma_erased(console, (count - 1) as nat);
        assert(console.line.take(console.line.len() - count + 1).drop_last()
            =~= console.line.take(console.line.len() - count));
    }
}

/// Typing plain characters and then as many backspaces brings the line
/// back to what it was and the cursor back to its column, where the
/// characters fit on the line and on the row.
pub proof fn lemma_type_then_erase(console: Console, characters: Seq<char>)
    requires
        console.display.column + characters.len() <= 80,
        console.line.len() + characters.len() <= INPUT_CAPACITY,
        forall|i: int| 0 <= i < characters.len() ==> is_plain(#[trigger] characters[i]),
    ensures
        console.typed_all(characters).erased(characters.len()).line == console.line,
        console.typed_all(characters).erased(characters.len()).display.column
            == console.display.column,
{
    lemma_typed_plain(console, characters);
    let after = console.typed_all(characters);
    lemma_erased(after, characters.len());
    assert(after.line.take(after.line.len() - characters.len()) =~= console.line);
}

} // verus!
