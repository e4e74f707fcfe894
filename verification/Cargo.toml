[package]
name = "famp"
version = "0.1.0"
edition = "2021"
publish = false

[dependencies]
serde = { version = "=1.0.229", features = ["derive"] }
serde_json = "=1.0.154"
toml = "=1.1.8"
clap = { version = "=4.6.7", features = ["derive", "env"] }
dirs = "=7.0.0"
nix = { version = "=0.31.3", features = ["fs", "user"] }
tempfile = "=3.27.0"
which = "=8.0.6"
humantime = "=2.4.0"
base64 = "=0.22.1"
rusqlite = { version = "=0.41.1", features = ["bundled"] }
time = { version = "0.3", features = ["formatting"] }
sha2 = "0.10"
