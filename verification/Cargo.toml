[package]
name = "wasm_test_harness"
version = "0.1.0"
edition = "2021"
publish = false

[dependencies]
wit-component = "=0.258.3"
wasmtime = "=48.0.5"
wasmtime-wasi = "=48.0.5"
anyhow = "=1.0.104"
heck = "=0.5.0"
wit-parser = "=0.258.3"
syn = { version = "=2.0.119", features = ["full"] }
quote = "=1.0.47"
proc-macro2 = "=1.0.107"
