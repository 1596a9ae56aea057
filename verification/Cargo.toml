[package]
name = "lustre_analyzer"
version = "0.1.0"
edition = "2021"
publish = false

[dependencies]
indexmap = "2"
tower-lsp-server = "*"
tokio = { version = "1", features = ["io-std", "macros", "rt-multi-thread"] }
async-lock = "3"
