[package]
name = "easytier_ssh"
version = "0.1.0"
edition = "2021"
publish = false

[dependencies]
anyhow = "1"
async-trait = "0.1"
cidr = "=0.3.2"
rand = "=0.8.8"
russh = "=0.49.2"
russh-keys = "=0.49.2"
serde = { version = "1", features = ["derive"] }
tokio = { version = "1", features = ["full"] }
toml = "0.8"
tracing = "0.1"
url = "=2.5.8"
uuid = { version = "=1.29.0", features = ["v4"] }
xpty = "=0.3.6"
