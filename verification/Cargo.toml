[package]
name = "babelfont-fontc-web"
version = "0.1.0"
edition = "2021"
publish = false

[dependencies]
babelfont = "=0.2.4"
console_error_panic_hook = "=0.1.7"
fontc = { version = "=1.0.0", default-features = false }
fontir = "=1.0.0"
serde_json = "=1.0.154"
wasm-bindgen = "=0.2.129"
