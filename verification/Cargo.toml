[package]
name = "wasi_streams"
version = "0.1.0"
edition = "2021"
publish = false

[dependencies]
anyhow = "1"
async-trait = "0.1"
bytes = "1"
wasi = "0.11"
wasmtime = { version = "14", default-features = false, features = ["component-model"] }
