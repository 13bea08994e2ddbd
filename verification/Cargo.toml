[package]
name = "somsed"
version = "0.1.0"
edition = "2021"
publish = false

[dependencies]
anyhow = "1"
clap = { version = "4", features = ["derive"] }
console_error_panic_hook = "0.1"
futures-lite = "2"
iced = { version = "0.13", default-features = false, features = ["canvas", "tiny-skia"] }
serde_json = "1"
strum = { version = "0.26", features = ["derive"] }
trie-rs = "0.4.2"
wasm-bindgen = "0.2"
