[package]
name = "mailbomb"
version = "0.1.0"
edition = "2021"
publish = false

[dependencies]
aes = "0.8"
cbc = "0.1"
crc = "3"
hmac = "0.12"
sha1 = "0.10"
anyhow = "1"
chrono = "0.4"
clap = { version = "4", features = ["derive"] }
console_error_panic_hook = "0.1"
env_logger = "*"
js-sys = "0.3"
log = "0.4"
wasm-bindgen = "0.2"
