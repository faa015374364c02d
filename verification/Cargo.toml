[package]
name = "tl_codegen"
version = "0.1.0"
edition = "2021"
publish = false

[dependencies]
crc32fast = "1"
indexmap = "2"
serde = { version = "1", features = ["derive"] }
serde_json = "1"
