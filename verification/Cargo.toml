[package]
name = "sentence_transformer"
version = "0.1.0"
edition = "2021"
publish = false

[dependencies]
failure = "*"
log = "*"
rust-bert = { version = "*", default-features = false }
rust_tokenizers = "*"
serde = { version = "*", features = ["derive"] }
serde_json = "*"
tch = "*"
