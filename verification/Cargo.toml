[package]
name = "cosmic-widgets"
version = "0.1.0"
edition = "2021"
publish = false
rust-version = "1.95"

[dependencies]
anyhow = "=1.0.104"
bitflags = { version = "=2.13.2", features = ["serde"] }
clap = { version = "=4.6.7", features = ["derive"] }
extism = { version = "=1.21.0", default-features = false }
semver = { version = "=1.0.28", features = ["serde"] }
serde = { version = "=1.0.229", features = ["derive"] }
serde_json = "=1.0.154"
sha2 = "=0.10.9"
thiserror = "=2.0.21"
time = { version = "=0.3.55", features = ["local-offset"] }
toml = "=0.9.12"
tracing = "=0.1.44"
tracing-subscriber = { version = "=0.3.23", features = ["env-filter"] }
uuid = { version = "=1.29.0", features = ["v4", "serde"] }
zip = { version = "=9.2.2", default-features = false, features = ["deflate"] }
