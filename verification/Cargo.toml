[package]
name = "arrow_interop"
version = "0.1.0"
edition = "2021"
publish = false

[dependencies]
arrow-format = { version = "0.7", default-features = false, features = ["ipc"] }
bytemuck = { version = "1", features = ["min_const_generics"] }
lz4 = "1.23"
zstd = "0.11"
