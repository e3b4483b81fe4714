[package]
name = "raccoon"
version = "0.1.0"
edition = "2021"
publish = false

[dependencies]
anyhow = "=1.0.104"
base64 = "=0.23.1"
clap = { version = "=4.6.7", features = ["derive"] }
crossbeam-channel = "=0.5.17"
crossterm = "=0.29.0"
directories = "=6.0.0"
gix = { version = "=0.90.0", default-features = false, features = ["sha1"] }
lru = "=0.19.0"
notify = "=8.2.1"
ratatui = "=0.30.2"
serde = { version = "=1.0.229", features = ["derive"] }
syntect = { version = "=5.3.0", default-features = false, features = ["default-fancy"] }
thiserror = "=2.0.21"
toml = "=1.1.8"
tracing = "=0.1.44"
tracing-subscriber = "=0.3.23"
two-face = { version = "=0.5.2", default-features = false, features = ["syntect-fancy"] }

[dev-dependencies]
tempfile = "=3.27.0"
