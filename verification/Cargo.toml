[package]
name = "multiplayer"
version = "0.1.0"
edition = "2021"
publish = false

[dependencies]
tokio-util = { version = "=0.7.20", features = ["codec"] }
bytes = "=1.12.1"
aes-gcm-siv = "=0.11.1"
hex = "=0.4.3"
tokio = { version = "=1.54.1", features = ["full"] }
futures = "=0.3.34"
serde = { version = "=1.0.229", features = ["derive"] }
serde_json = "=1.0.154"
bincode = "=1.3.3"
uuid = { version = "=1.29.0", features = ["v4", "serde"] }
platform-dirs = "=0.3.0"
thiserror = "=1.0.69"
symphonia = { version = "0.5", features = ["all"] }
image = { version = "0.24", default-features = false, features = ["jpeg", "png"] }
