[package]
name = "xlsx_xml"
version = "0.1.0"
edition = "2021"
publish = false

[dependencies]
quick-xml = "0.30"
serde = { version = "1", features = ["derive"] }
wasm-bindgen = "0.2"
serde-wasm-bindgen = "0.6"
console_error_panic_hook = "0.1"
