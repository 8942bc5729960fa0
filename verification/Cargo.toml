[package]
name = "modular_scanner"
version = "0.1.0"
edition = "2021"
publish = false

[dependencies]
url = "*"
tokio = { version = "*", features = ["rt-multi-thread", "net", "time", "macros"] }
reqwest = { version = "*", default-features = false, features = ["json"] }
futures = "*"
trust-dns-resolver = "*"
clap = "*"
anyhow = "*"
env_logger = "*"
log = "*"
serde = { version = "*", features = ["derive"] }
serde_json = "*"
async-trait = "*"
