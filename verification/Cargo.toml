[package]
name = "usya"
version = "0.1.0"
edition = "2021"
publish = false

[dependencies]
x86_64 = { version = "0.15", default-features = false, features = ["instructions"] }
xmas-elf = "0.9"
tinybmp = "0.6"
embedded-graphics = "0.8"
bootloader_api = "0.11"
spin = "0.9"
lazy_static = "1"
log = "0.4"
