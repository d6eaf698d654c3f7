[package]
name = "weblab_macros"
version = "0.1.0"
edition = "2021"
publish = false

[dependencies]
cargo_toml = "*"
proc-macro2 = "1"
quote = "1"
syn = { version = "1", features = ["full", "fold"] }
