[package]
name = "bert_wordpiece"
version = "0.1.0"
edition = "2021"
publish = false

[dependencies]
ahash = "=0.8.12"
tokenizers = { version = "=0.23.2", default-features = false, features = ["unstable_wasm"] }
serde = { version = "=1.0.229", features = ["derive"] }
wasm-bindgen = { version = "=0.2.129", features = ["serde-serialize"] }
wee_alloc = "=0.4.5"
