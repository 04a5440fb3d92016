[package]
name = "motion_link"
version = "0.1.0"
edition = "2021"
publish = false

[dependencies]
console_error_panic_hook = "0.1"
futures-util = { version = "0.3", features = ["sink"] }
gloo = { version = "0.11", default-features = false, features = ["net", "utils"] }
js-sys = "0.3"
nalgebra = "0.33"
serde = { version = "1", features = ["derive"] }
serde_json = "1"
wasm-bindgen = "0.2"
wasm-bindgen-futures = "0.4"
web-sys = { version = "0.3", features = ["console", "ReadableStream", "ReadableStreamDefaultReader", "WritableStream", "WritableStreamDefaultWriter", "Window"] }
