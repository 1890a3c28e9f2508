[package]
name = "one_proxy"
version = "0.1.0"
edition = "2021"
publish = false

[dependencies]
aes = "0.8"
soft-aes = "*"
rmp-serde = "1"
serde = { version = "1", features = ["derive"] }
tokio-util = { version = "0.7", features = ["codec"] }
tokio = { version = "1", features = ["full"] }
bytes = "1"
futures = "0.3"
async-trait = "0.1"
thiserror = "*"
monoio = "*"
