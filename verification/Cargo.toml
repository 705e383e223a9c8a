[package]
name = "testos_console"
version = "0.1.0"
edition = "2021"
publish = false

[dependencies]
lazy_static = { version = "1.4", features = ["spin_no_std"] }
pc-keyboard = "0.7"
spin = "0.9"
volatile = "0.2"
x86_64 = { version = "0.15", default-features = false, features = ["instructions"] }
