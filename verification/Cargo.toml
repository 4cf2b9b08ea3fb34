[package]
name = "wasm-vk"
version = "0.1.0"
edition = "2021"
publish = false

[dependencies]
rspirv = "=0.6.0"
spirv_headers = "=1.4.2"
parity-wasm = "=0.40.3"
