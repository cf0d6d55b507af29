[package]
name = "invoker"
version = "0.1.0"
edition = "2021"
publish = false

[dependencies]
nix = { version = "=0.26.4", features = ["dir", "feature", "fs", "mman", "mount", "poll", "process", "signal", "uio", "user"] }
base64 = "=0.23.1"
uuid = { version = "=1.27.0", features = ["v4", "serde"] }
serde = { version = "=1.0.229", features = ["derive"] }
serde_json = "=1.0.151"
