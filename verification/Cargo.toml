[package]
name = "simd_detect"
version = "0.1.0"
edition = "2021"
publish = false

[dependencies]
addr2line = "*"
clap = { version = "*", features = ["derive"] }
gimli = "*"
hex = "*"
object = "*"
serde = { version = "*", features = ["derive"] }
serde_json = "*"
sha2 = "*"
wasmparser = "*"
