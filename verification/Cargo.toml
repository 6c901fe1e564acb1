[package]
name = "paloma"
version = "0.1.0"
edition = "2021"
publish = false

[dependencies]
async-channel = "=2.5.0"
dirs = "=6.0.0"
gtk4 = { version = "=0.11.5", features = ["v4_12"] }
libadwaita = { version = "=0.9.2", features = ["v1_5"] }
qrcode = { version = "=0.14.1", default-features = false, features = ["svg"] }
serde = { version = "=1.0.229", features = ["derive"] }
tdlib-rs = "=1.4.0"
thiserror = "=2.0.21"
tokio = { version = "=1.54.1", features = ["rt-multi-thread", "macros", "time"] }
toml = "=0.9.8"
tracing = "=0.1.44"
tracing-subscriber = { version = "=0.3.23", features = ["env-filter"] }
