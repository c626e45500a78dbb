[package]
name = "dropwire"
version = "0.1.0"
edition = "2021"
publish = false

[dependencies]
base64 = "0.22"
bitvec = "1"
blake3 = "1"
chacha20poly1305 = "0.10"
chrono = "0.4"
clap = { version = "4", features = ["derive"] }
crossterm = "0.27"
dashmap = "5"
dirs = "5"
futures = "0.3"
hex = "0.4"
ignore = "0.4"
indicatif = "0.17"
rand = "0.8"
ratatui = "0.26"
serde = { version = "1", features = ["derive"] }
serde_json = "1"
spake2 = "0.4"
thiserror = "1"
tokio = { version = "1", features = ["full"] }
tokio-tungstenite = "0.21"
tracing = "0.1"
tracing-subscriber = "0.3"
walkdir = "2"
zeroize = { version = "1", features = ["derive"] }
zstd = "0.13"

[dev-dependencies]
tempfile = "3"
