use testos_console::keyboard::{InputBuffer, INPUT_CAPACITY};

#[test]
fn a_new_input_buffer_is_empty() {
    let input = InputBuffer::new();
    assert_eq!(input.len(), 0);
    assert_eq!(input.as_str(), "");
}

#[test]
fn pushed_bytes_read_back_in_order() {
    let mut input = InputBuffer::new();
    for byte in b"echo hi" {
        input.push(*byte);
    }
    assert_eq!(input.len(), 7);
    assert_eq!(input.as_str(), "echo hi");
}

#[test]
fn three_hundred_pushes_keep_the_first_256() {
    let mut input = InputBuffer::new();
    let mut typed = Vec::new();
    for i in 0..300usize {
        let byte = b'a' + (i % 26) as u8;
        typed.push(byte);
        input.push(byte);
    }
    assert_eq!(INPUT_CAPACITY, 256);
    assert_eq!(input.len(), 256);
    assert_eq!(input.as_str().as_bytes(), &typed[..256]);
}

#[test]
fn a_full_buffer_takes_bytes_again_after_a_pop() {
    let mut input = InputBuffer::new();
    for _ in 0..256 {
        input.push(b'x');
    }
    input.push(b'y');
    assert_eq!(input.len(), 256);
    assert!(input.as_str().bytes().all(|byte| byte == b'x'));
    input.pop();
    input.push(b'z');
    assert_eq!(input.len(), 256);
    assert_eq!(input.as_str().as_bytes()[255], b'z');
}

#[test]
fn pop_removes_the_last_byte() {
    let mut input = InputBuffer::new();
    input.push(b'a');
    input.push(b'b');
    input.pop();
    assert_eq!(input.as_str(), "a");
    input.pop();
    assert_eq!(input.as_str(), "");
    assert_eq!(input.len(), 0);
}

#[test]
fn pop_on_an_empty_buffer_does_nothing() {
    let mut input = InputBuffer::new();
    input.pop();
    input.pop();
    assert_eq!(input.len(), 0);
    assert_eq!(input.as_str(), "");
    input.push(b'q');
    assert_eq!(input.as_str(), "q");
}

#[test]
fn clear_empties_the_buffer() {
    let mut input = InputBuffer::new();
    for byte in b"some text" {
        input.push(*byte);
    }
    input.clear();
    assert_eq!(input.len(), 0);
    assert_eq!(input.as_str(), "");
    input.push(b'k');
    assert_eq!(input.as_str(), "k");
}

#[test]
fn bytes_that_are_not_text_read_as_empty_and_stay() {
    let mut input = InputBuffer::new();
    input.push(b'a');
    input.push(0xff);
    assert_eq!(input.as_str(), "");
    assert_eq!(input.len(), 2);
    input.pop();
    assert_eq!(input.as_str(), "a");
}

#[test]
fn valid_multi_byte_text_reads_back() {
    let mut input = InputBuffer::new();
    for byte in "h\u{e9}".as_bytes() {
        input.push(*byte);
    }
    assert_eq!(input.len(), 3);
    assert_eq!(input.as_str(), "h\u{e9}");
    input.pop();
    assert_eq!(input.as_str(), "");
}
