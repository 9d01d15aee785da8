[package]
name = "move_fuzzer"
version = "0.1.0"
edition = "2021"
publish = false

[dependencies]
anyhow = "=1.0.104"
clap = { version = "=4.5.61", features = ["derive"] }
once_cell = "=1.21.4"
walkdir = "=2.5.0"
move-core-types = "=0.0.3"

[dev-dependencies]
arbitrary = "=1.3.2"
