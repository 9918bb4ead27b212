[package]
name = "chunk_render"
version = "0.1.0"
edition = "2021"
publish = false

[dependencies]
rustc-hash = "=2.1.3"
oxc = { version = "=0.24.0", features = ["minifier"] }
bitflags = "=2.13.2"
