[package]
name = "eryx_host"
version = "0.1.0"
edition = "2021"
publish = false

[dependencies]
libc = "=0.2.191"
pyo3 = { version = "=0.27.2", features = ["abi3-py38"] }
tokio = { version = "=1.54.1", features = ["rt-multi-thread", "sync", "time"] }
wasmtime = { version = "44.0", default-features = false, features = ["runtime", "std"] }
