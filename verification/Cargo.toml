[package]
name = "ku"
version = "0.1.0"
edition = "2021"
publish = false

[dependencies]
chrono = { version = "0.4", default-features = false }
tracing = { version = "0.1", default-features = false }
xmas-elf = "0.9"
x86_64 = { version = "0.15", default-features = false, features = ["instructions"] }
