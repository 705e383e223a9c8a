//! Console of a small bare-metal kernel: a text display writer with
//! cursor and scrolling, a bounded input line, scancode routing and a
//! line-oriented command shell, with the interrupt-controller set-up that
//! makes the keyboard reachable.
pub mod display;
pub mod interrupts;
pub mod keyboard;
pub mod text;
pub mod vga_buffer;
