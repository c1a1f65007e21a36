[package]
name = "openstratcore"
version = "0.1.0"
edition = "2021"
publish = false

[dependencies]
rand = "0.8"
rand_pcg = "0.3"
serde = { version = "1", features = ["derive"] }
serde_json = "1"
thiserror = "1"
pyo3 = { version = "0.22", features = ["extension-module", "abi3-py38"] }
wasm-bindgen = "0.2"
