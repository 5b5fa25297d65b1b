[package]
name = "rtf_parser"
version = "0.4.2"
edition = "2021"
publish = false

[dependencies]
serde = { version = "1", features = ["derive"] }
tsify = { version = "0.4", default-features = false, features = ["js"] }
wasm-bindgen = "0.2"
