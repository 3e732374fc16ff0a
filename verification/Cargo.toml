[package]
name = "wat-lsp-rust"
version = "0.1.0"
edition = "2021"
publish = false

[dependencies]
regex = "1"
wast = "*"
tower-lsp = "0.20"
tokio = { version = "1", features = ["io-std", "macros", "rt-multi-thread", "sync", "time"] }
dashmap = "*"
