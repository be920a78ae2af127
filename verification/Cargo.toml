[package]
name = "swtc"
version = "0.1.0"
edition = "2021"
publish = false

[dependencies]
xmas-elf = "=0.10.0"
lru = { version = "=0.19.0", default-features = false }
memory_addr = "*"
