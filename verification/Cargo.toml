[package]
name = "elf"
version = "0.1.0"
edition = "2021"
publish = false

[dependencies]
clap = { version = "4", features = ["derive"] }
enumflags2 = "0.7"
memmap2 = "0.9"
num-derive = "0.4"
num-traits = "0.2"
static_assertions = "1"
thiserror = "1"
