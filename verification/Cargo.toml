[package]
name = "runt"
version = "0.1.0"
edition = "2021"
publish = false

[dependencies]
chrono = "=0.4.45"
dirs-next = "=2.0.0"
imap = { version = "=3.0.0-alpha.4", default-features = false, features = ["rustls-tls"] }
libc = "=0.2.191"
maildir = "=0.5.0"
notify = "=4.0.18"
rayon = "=1.12.0"
rusqlite = { version = "=0.24.2", features = ["bundled"] }
rustls-connector = "=0.13.1"
serde = { version = "=1.0.229", features = ["derive"] }
serde_json = "=1.0.154"
toml = "=0.5.11"
