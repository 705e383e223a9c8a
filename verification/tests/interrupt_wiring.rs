use testos_console::interrupts::{
    end_of_interrupt, init_pic, vector_for_line, PortWrite, DOUBLE_FAULT_VECTOR, KEYBOARD_DATA,
    KEYBOARD_LINE, KEYBOARD_VECTOR, PIC1_MASK, PIC2_MASK,
};

fn write(port: u16, value: u8) -> PortWrite {
    PortWrite { port, value }
}

#[test]
fn init_pic_gives_the_set_up_sequence() {
    let expected = vec![
        write(0x20, 0x11),
        write(0xa0, 0x11),
        write(0x21, 32),
        write(0xa1, 40),
        write(0x21, 4),
        write(0xa1, 2),
        write(0x21, 0x01),
        write(0xa1, 0x01),
        write(0x21, 0xfd),
        write(0xa1, 0xff),
    ];
    assert_eq!(init_pic(), expected);
}

#[test]
fn end_of_interrupt_goes_to_the_first_controller() {
    assert_eq!(end_of_interrupt(), write(0x20, 0x20));
}

#[test]
fn hardware_lines_raise_vectors_from_32_on() {
    assert_eq!(vector_for_line(0), 32);
    assert_eq!(vector_for_line(1), 33);
    assert_eq!(vector_for_line(7), 39);
    assert_eq!(vector_for_line(8), 40);
    assert_eq!(vector_for_line(15), 47);
    let mut seen = Vec::new();
    for line in 0..16u8 {
        let vector = vector_for_line(line);
        assert!(vector >= 32);
        assert_ne!(vector, DOUBLE_FAULT_VECTOR);
        assert!(!seen.contains(&vector));
        seen.push(vector);
    }
}

#[test]
fn the_keyboard_raises_its_vector() {
    assert_eq!(KEYBOARD_LINE, 1);
    assert_eq!(vector_for_line(KEYBOARD_LINE), KEYBOARD_VECTOR);
    assert_eq!(KEYBOARD_VECTOR, 33);
    assert_eq!(KEYBOARD_DATA, 0x60);
}

#[test]
fn the_masks_leave_only_the_keyboard_line_open() {
    for line in 0..8u8 {
        let open = (PIC1_MASK >> line) & 1 == 0;
        assert_eq!(open, line == KEYBOARD_LINE);
    }
    assert_eq!(PIC2_MASK, 0xff);
}
