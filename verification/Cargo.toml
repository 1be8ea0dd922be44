[package]
name = "chipo"
version = "0.1.0"
edition = "2021"
publish = false

[dependencies]
cfg-if = "1"
console_error_panic_hook = "0.1"
js-sys = "0.3"
rand = "0.8"
wasm-bindgen = "0.2"
