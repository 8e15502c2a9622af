[package]
name = "ourairports"
version = "0.1.0"
edition = "2021"
publish = false

[dependencies]
csv = "1"
serde = "1"
serde_json = "1"
anyhow = "1"
clap = "4"
human-panic = "*"
reqwest = { version = "*", default-features = false, features = ["rustls-tls"] }
tokio = { version = "1", features = ["rt-multi-thread", "macros"] }
