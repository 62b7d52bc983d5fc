[package]
name = "runtime_tracker"
version = "0.1.0"
edition = "2021"
publish = false

[dependencies]
chrono = { version = "0.4", default-features = false, features = ["alloc"] }
serde = { version = "1", features = ["derive"] }
serde_json = "1"
worker = "*"
getrandom = "0.3"
wasm-bindgen = "0.2"
console_error_panic_hook = "0.1"
