[package]
name = "solcore"
version = "0.1.0"
edition = "2021"
publish = false

[dependencies]
rustc-hash = "=2.1.3"
tiny-keccak = { version = "=2.0.2", features = ["keccak"] }
