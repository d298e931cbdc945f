[package]
name = "remarkable"
version = "0.1.0"
edition = "2021"
publish = false

[dependencies]
uuid = { version = "1", features = ["v4"] }
serde = { version = "1", features = ["derive"] }
serde_json = "1"
toml = "*"
clap = { version = "4", features = ["derive", "env"] }
tokio = { version = "1", features = ["full"] }
anyhow = "1"
thiserror = "*"
chrono = "0.4"
tiny-skia = "*"
futures = "0.3"
russh = "*"
russh-sftp = "*"
