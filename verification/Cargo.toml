[package]
name = "conduit"
version = "0.1.0"
edition = "2021"
publish = false

[dependencies]
base64 = "0.22"
sha2 = "0.10"
rand = "0.8"
time = "0.3"
tokio = { version = "1", features = ["full"] }
tokio-util = "0.7"
libssh-rs-sys = "*"
serde = { version = "1", features = ["derive"] }
toml = "*"
