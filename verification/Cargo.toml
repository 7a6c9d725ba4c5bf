[package]
name = "openvpn_profiles"
version = "0.1.0"
edition = "2021"
publish = false

[dependencies]
anyhow = "=1.0.104"
dirs = "=7.0.0"
fs2 = "=0.4.3"
serde = { version = "=1.0.229", features = ["derive"] }
serde_json = "=1.0.154"
shell-words = "=1.1.1"
signal-hook = "=0.3.18"
tempfile = "=3.27.0"
uuid = { version = "=1.29.0", features = ["v4", "serde"] }
